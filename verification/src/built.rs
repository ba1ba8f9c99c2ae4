//! Statements with their texts: every span of a statement replaced by the
//! bytes it covers in its file, borrowed from the file's text.
use vstd::prelude::*;
use crate::ast::{
    DataBuilder, DataFileBuilder, DataFilesBuilder, DataValuesBuilder, GeneralBuilder, GeneralCmd, KeyValueBuilder,
    ModelBuilder, ModelTypeBuilder, NumLit, PnameColNumBuilder, TokenBuilder, Unit, UnknwonBuilder, ValueBuilder,
};
use crate::instance::{
    BJTBuilder, CapacitorBuilder, CurrentBuilder, CurrentSourceBuilder, DiodeBuilder, EdgeType, InductorBuilder,
    InstanceBuilder, InstanceCtxBuilder, MOSFETBuilder, PWLBuilder, ResistorBuilder, SubcktBuilder,
    TimeValuePointBuilder, VoltageBuilder, VoltageSourceBuilder,
};
use crate::span::Span;

verus! {

/// A value whose spans refer to the text of a file, and what it becomes
/// once each span is replaced by its text.
pub trait Builder<'s>: Sized {
    type Out;

    /// Every span lies in a text of `n` bytes.
    spec fn fits(&self, n: nat) -> bool;

    /// `r` is this value with each span replaced by its text in `file`.
    spec fn built_as(&self, file: Seq<u8>, r: Self::Out) -> bool;

    /// This value with each span replaced by its text in `file`.
    fn build(&self, file: &'s [u8]) -> (r: Self::Out)
        requires self.fits(file@.len()),
        ensures self.built_as(file@, r),
    ;
}

impl<'s> Builder<'s> for Span {
    type Out = &'s [u8];

    open spec fn fits(&self, n: nat) -> bool {
        self.start <= self.end <= n
    }

    open spec fn built_as(&self, file: Seq<u8>, r: &'s [u8]) -> bool {
        r@ == file.subrange(self.start as int, self.end as int)
    }

    fn build(&self, file: &'s [u8]) -> (r: &'s [u8]) {
        let (a, _) = file.split_at(self.end);
        let (_, t) = a.split_at(self.start);
        assert(t@ =~= file@.subrange(self.start as int, self.end as int));
        t
    }
}

impl<'s> Builder<'s> for usize {
    type Out = usize;

    open spec fn fits(&self, n: nat) -> bool {
        true
    }

    open spec fn built_as(&self, file: Seq<u8>, r: usize) -> bool {
        r == *self
    }

    fn build(&self, file: &'s [u8]) -> (r: usize) {
        *self
    }
}

impl<'s> Builder<'s> for u8 {
    type Out = u8;

    open spec fn fits(&self, n: nat) -> bool {
        true
    }

    open spec fn built_as(&self, file: Seq<u8>, r: u8) -> bool {
        r == *self
    }

    fn build(&self, file: &'s [u8]) -> (r: u8) {
        *self
    }
}

impl<'s, T: Builder<'s>> Builder<'s> for Vec<T> {
    type Out = Vec<T::Out>;

    open spec fn fits(&self, n: nat) -> bool {
        forall|k: int| 0 <= k < self@.len() ==> (#[trigger] self@[k]).fits(n)
    }

    open spec fn built_as(&self, file: Seq<u8>, r: Vec<T::Out>) -> bool {
        r@.len() == self@.len() && forall|k: int| 0 <= k < self@.len() ==> (#[trigger] self@[k]).built_as(file, r@[k])
    }

    fn build(&self, file: &'s [u8]) -> (r: Vec<T::Out>) {
        let mut r: Vec<T::Out> = Vec::new();
        let mut k: usize = 0;
        while k < self.len()
            invariant
                self.fits(file@.len()),
                k <= self@.len(),
                r@.len() == k,
                forall|m: int| 0 <= m < k ==> (#[trigger] self@[m]).built_as(file@, r@[m]),
            decreases self@.len() - k,
        {
            let x = self[k].build(file);
            r.push(x);
            k = k + 1;
        }
        r
    }
}

impl<'s, T: Builder<'s>> Builder<'s> for Option<T> {
    type Out = Option<T::Out>;

    open spec fn fits(&self, n: nat) -> bool {
        match self {
            Some(x) => x.fits(n),
            None => true,
        }
    }

    open spec fn built_as(&self, file: Seq<u8>, r: Option<T::Out>) -> bool {
        match (self, r) {
            (Some(x), Some(y)) => x.built_as(file, y),
            (None, None) => true,
            _ => false,
        }
    }

    fn build(&self, file: &'s [u8]) -> (r: Option<T::Out>) {
        match self {
            Some(x) => Some(x.build(file)),
            None => None,
        }
    }
}

impl<'s, T1: Builder<'s>, T2: Builder<'s>> Builder<'s> for (T1, T2) {
    type Out = (T1::Out, T2::Out);

    open spec fn fits(&self, n: nat) -> bool {
        self.0.fits(n) && self.1.fits(n)
    }

    open spec fn built_as(&self, file: Seq<u8>, r: (T1::Out, T2::Out)) -> bool {
        self.0.built_as(file, r.0) && self.1.built_as(file, r.1)
    }

    fn build(&self, file: &'s [u8]) -> (r: (T1::Out, T2::Out)) {
        (self.0.build(file), self.1.build(file))
    }
}

impl<'s, T1: Builder<'s>, T2: Builder<'s>, T3: Builder<'s>> Builder<'s> for (T1, T2, T3) {
    type Out = (T1::Out, T2::Out, T3::Out);

    open spec fn fits(&self, n: nat) -> bool {
        self.0.fits(n) && self.1.fits(n) && self.2.fits(n)
    }

    open spec fn built_as(&self, file: Seq<u8>, r: (T1::Out, T2::Out, T3::Out)) -> bool {
        self.0.built_as(file, r.0) && self.1.built_as(file, r.1) && self.2.built_as(file, r.2)
    }

    fn build(&self, file: &'s [u8]) -> (r: (T1::Out, T2::Out, T3::Out)) {
        (self.0.build(file), self.1.build(file), self.2.build(file))
    }
}

/// A numeric literal: its decimal text and its scale suffix.
#[derive(Debug, Clone)]
pub struct Number<'s> {
    pub text: &'s [u8],
    pub unit: Option<Unit>,
}

impl<'s> Builder<'s> for NumLit {
    type Out = Number<'s>;

    open spec fn fits(&self, n: nat) -> bool {
        self.span.fits(n)
    }

    open spec fn built_as(&self, file: Seq<u8>, r: Number<'s>) -> bool {
        self.span.built_as(file, r.text) && r.unit == self.unit
    }

    fn build(&self, file: &'s [u8]) -> (r: Number<'s>) {
        Number { text: self.span.build(file), unit: self.unit }
    }
}

/// A number, or an expression.
#[derive(Debug, Clone)]
pub enum Value<'s> {
    Num(Number<'s>),
    Expr(&'s [u8]),
}

impl<'s> Builder<'s> for ValueBuilder {
    type Out = Value<'s>;

    open spec fn fits(&self, n: nat) -> bool {
        match self {
            ValueBuilder::Num(x) => x.fits(n),
            ValueBuilder::Expr(e) => e.fits(n),
        }
    }

    open spec fn built_as(&self, file: Seq<u8>, r: Value<'s>) -> bool {
        match (self, r) {
            (ValueBuilder::Num(x), Value::Num(y)) => x.built_as(file, y),
            (ValueBuilder::Expr(e), Value::Expr(t)) => e.built_as(file, t),
            _ => false,
        }
    }

    fn build(&self, file: &'s [u8]) -> (r: Value<'s>) {
        match self {
            ValueBuilder::Num(x) => Value::Num(x.build(file)),
            ValueBuilder::Expr(e) => Value::Expr(e.build(file)),
        }
    }
}

/// `key=value`
#[derive(Debug, Clone)]
pub struct KeyValue<'s> {
    pub k: &'s [u8],
    pub v: Value<'s>,
}

impl<'s> Builder<'s> for KeyValueBuilder {
    type Out = KeyValue<'s>;

    open spec fn fits(&self, n: nat) -> bool {
        self.k.fits(n) && self.v.fits(n)
    }

    open spec fn built_as(&self, file: Seq<u8>, r: KeyValue<'s>) -> bool {
        self.k.built_as(file, r.k) && self.v.built_as(file, r.v)
    }

    fn build(&self, file: &'s [u8]) -> (r: KeyValue<'s>) {
        KeyValue { k: self.k.build(file), v: self.v.build(file) }
    }
}

/// A token of a command.
#[derive(Debug, Clone)]
pub enum Token<'s> {
    KV(KeyValue<'s>),
    Value(Value<'s>),
    V(&'s [u8]),
    I(&'s [u8]),
}

impl<'s> Builder<'s> for TokenBuilder {
    type Out = Token<'s>;

    open spec fn fits(&self, n: nat) -> bool {
        match self {
            TokenBuilder::KV(x) => x.fits(n),
            TokenBuilder::Value(x) => x.fits(n),
            TokenBuilder::V(x) => x.fits(n),
            TokenBuilder::I(x) => x.fits(n),
        }
    }

    open spec fn built_as(&self, file: Seq<u8>, r: Token<'s>) -> bool {
        match (self, r) {
            (TokenBuilder::KV(x), Token::KV(y)) => x.built_as(file, y),
            (TokenBuilder::Value(x), Token::Value(y)) => x.built_as(file, y),
            (TokenBuilder::V(x), Token::V(y)) => x.built_as(file, y),
            (TokenBuilder::I(x), Token::I(y)) => x.built_as(file, y),
            _ => false,
        }
    }

    fn build(&self, file: &'s [u8]) -> (r: Token<'s>) {
        match self {
            TokenBuilder::KV(x) => Token::KV(x.build(file)),
            TokenBuilder::Value(x) => Token::Value(x.build(file)),
            TokenBuilder::V(x) => Token::V(x.build(file)),
            TokenBuilder::I(x) => Token::I(x.build(file)),
        }
    }
}

/// A command with a known meaning, kept as its tokens.
#[derive(Debug, Clone)]
pub struct General<'s> {
    pub cmd: GeneralCmd,
    pub tokens: Vec<Token<'s>>,
}

impl<'s> Builder<'s> for GeneralBuilder {
    type Out = General<'s>;

    open spec fn fits(&self, n: nat) -> bool {
        self.tokens.fits(n)
    }

    open spec fn built_as(&self, file: Seq<u8>, r: General<'s>) -> bool {
        r.cmd == self.cmd && self.tokens.built_as(file, r.tokens)
    }

    fn build(&self, file: &'s [u8]) -> (r: General<'s>) {
        General { cmd: self.cmd, tokens: self.tokens.build(file) }
    }
}

/// A command that is not understood: its name and its tokens.
#[derive(Debug, Clone)]
pub struct Unknwon<'s> {
    pub cmd: &'s [u8],
    pub tokens: Vec<Token<'s>>,
}

impl<'s> Builder<'s> for UnknwonBuilder {
    type Out = Unknwon<'s>;

    open spec fn fits(&self, n: nat) -> bool {
        self.cmd.fits(n) && self.tokens.fits(n)
    }

    open spec fn built_as(&self, file: Seq<u8>, r: Unknwon<'s>) -> bool {
        self.cmd.built_as(file, r.cmd) && self.tokens.built_as(file, r.tokens)
    }

    fn build(&self, file: &'s [u8]) -> (r: Unknwon<'s>) {
        Unknwon { cmd: self.cmd.build(file), tokens: self.tokens.build(file) }
    }
}

/// The device kind of a `.model`, an unknown kind with its text.
#[derive(Debug, Clone)]
pub enum ModelType<'s> {
    AMP,
    C,
    CORE,
    D,
    L,
    NJF,
    NMOS,
    NPN,
    OPT,
    PJF,
    PMOS,
    PNP,
    R,
    U,
    W,
    S,
    Unknown(&'s [u8]),
}

impl<'s> Builder<'s> for ModelTypeBuilder {
    type Out = ModelType<'s>;

    open spec fn fits(&self, n: nat) -> bool {
        match self {
            ModelTypeBuilder::Unknown(s) => s.fits(n),
            _ => true,
        }
    }

    open spec fn built_as(&self, file: Seq<u8>, r: ModelType<'s>) -> bool {
        match (self, r) {
            (ModelTypeBuilder::AMP, ModelType::AMP) => true,
            (ModelTypeBuilder::C, ModelType::C) => true,
            (ModelTypeBuilder::CORE, ModelType::CORE) => true,
            (ModelTypeBuilder::D, ModelType::D) => true,
            (ModelTypeBuilder::L, ModelType::L) => true,
            (ModelTypeBuilder::NJF, ModelType::NJF) => true,
            (ModelTypeBuilder::NMOS, ModelType::NMOS) => true,
            (ModelTypeBuilder::NPN, ModelType::NPN) => true,
            (ModelTypeBuilder::OPT, ModelType::OPT) => true,
            (ModelTypeBuilder::PJF, ModelType::PJF) => true,
            (ModelTypeBuilder::PMOS, ModelType::PMOS) => true,
            (ModelTypeBuilder::PNP, ModelType::PNP) => true,
            (ModelTypeBuilder::R, ModelType::R) => true,
            (ModelTypeBuilder::U, ModelType::U) => true,
            (ModelTypeBuilder::W, ModelType::W) => true,
            (ModelTypeBuilder::S, ModelType::S) => true,
            (ModelTypeBuilder::Unknown(s), ModelType::Unknown(t)) => s.built_as(file, t),
            _ => false,
        }
    }

    fn build(&self, file: &'s [u8]) -> (r: ModelType<'s>) {
        match self {
            ModelTypeBuilder::AMP => ModelType::AMP,
            ModelTypeBuilder::C => ModelType::C,
            ModelTypeBuilder::CORE => ModelType::CORE,
            ModelTypeBuilder::D => ModelType::D,
            ModelTypeBuilder::L => ModelType::L,
            ModelTypeBuilder::NJF => ModelType::NJF,
            ModelTypeBuilder::NMOS => ModelType::NMOS,
            ModelTypeBuilder::NPN => ModelType::NPN,
            ModelTypeBuilder::OPT => ModelType::OPT,
            ModelTypeBuilder::PJF => ModelType::PJF,
            ModelTypeBuilder::PMOS => ModelType::PMOS,
            ModelTypeBuilder::PNP => ModelType::PNP,
            ModelTypeBuilder::R => ModelType::R,
            ModelTypeBuilder::U => ModelType::U,
            ModelTypeBuilder::W => ModelType::W,
            ModelTypeBuilder::S => ModelType::S,
            ModelTypeBuilder::Unknown(s) => ModelType::Unknown(s.build(file)),
        }
    }
}

/// `.MODEL name type params`
#[derive(Debug, Clone)]
pub struct Model<'s> {
    pub name: &'s [u8],
    pub model_type: ModelType<'s>,
    pub params: Vec<KeyValue<'s>>,
}

impl<'s> Builder<'s> for ModelBuilder {
    type Out = Model<'s>;

    open spec fn fits(&self, n: nat) -> bool {
        self.name.fits(n) && self.model_type.fits(n) && self.params.fits(n)
    }

    open spec fn built_as(&self, file: Seq<u8>, r: Model<'s>) -> bool {
        self.name.built_as(file, r.name) && self.model_type.built_as(file, r.model_type)
            && self.params.built_as(file, r.params)
    }

    fn build(&self, file: &'s [u8]) -> (r: Model<'s>) {
        Model { name: self.name.build(file), model_type: self.model_type.build(file), params: self.params.build(file) }
    }
}

/// A column of a data file: the parameter and its column number.
#[derive(Debug, Clone)]
pub struct PnameColNum<'s> {
    pub pname: &'s [u8],
    pub col_num: usize,
}

impl<'s> Builder<'s> for PnameColNumBuilder {
    type Out = PnameColNum<'s>;

    open spec fn fits(&self, n: nat) -> bool {
        self.pname.fits(n)
    }

    open spec fn built_as(&self, file: Seq<u8>, r: PnameColNum<'s>) -> bool {
        self.pname.built_as(file, r.pname) && r.col_num == self.col_num
    }

    fn build(&self, file: &'s [u8]) -> (r: PnameColNum<'s>) {
        PnameColNum { pname: self.pname.build(file), col_num: self.col_num }
    }
}

/// A data file and its columns.
#[derive(Debug, Clone)]
pub struct DataFile<'s> {
    pub file: &'s [u8],
    pub pname_col_num: Vec<PnameColNum<'s>>,
}

impl<'s> Builder<'s> for DataFileBuilder {
    type Out = DataFile<'s>;

    open spec fn fits(&self, n: nat) -> bool {
        self.file.fits(n) && self.pname_col_num.fits(n)
    }

    open spec fn built_as(&self, file: Seq<u8>, r: DataFile<'s>) -> bool {
        self.file.built_as(file, r.file) && self.pname_col_num.built_as(file, r.pname_col_num)
    }

    fn build(&self, file: &'s [u8]) -> (r: DataFile<'s>) {
        DataFile { file: self.file.build(file), pname_col_num: self.pname_col_num.build(file) }
    }
}

/// The data files of a `.DATA ... MER` / `LAM`, and the output file.
#[derive(Debug, Clone)]
pub struct DataFiles<'s> {
    pub files: Vec<DataFile<'s>>,
    pub out: Option<&'s [u8]>,
}

impl<'s> Builder<'s> for DataFilesBuilder {
    type Out = DataFiles<'s>;

    open spec fn fits(&self, n: nat) -> bool {
        self.files.fits(n) && self.out.fits(n)
    }

    open spec fn built_as(&self, file: Seq<u8>, r: DataFiles<'s>) -> bool {
        self.files.built_as(file, r.files) && self.out.built_as(file, r.out)
    }

    fn build(&self, file: &'s [u8]) -> (r: DataFiles<'s>) {
        DataFiles { files: self.files.build(file), out: self.out.build(file) }
    }
}

/// The values of a `.DATA`.
#[derive(Debug, Clone)]
pub enum DataValues<'s> {
    InlineExpr { params: Vec<&'s [u8]>, values: Vec<Value<'s>> },
    InlineNum { params: Vec<&'s [u8]>, values: Vec<Number<'s>> },
    MER(DataFiles<'s>),
    LAM(DataFiles<'s>),
}

impl<'s> Builder<'s> for DataValuesBuilder {
    type Out = DataValues<'s>;

    open spec fn fits(&self, n: nat) -> bool {
        match self {
            DataValuesBuilder::InlineExpr { params, values } => params.fits(n) && values.fits(n),
            DataValuesBuilder::InlineNum { params, values } => params.fits(n) && values.fits(n),
            DataValuesBuilder::MER(f) => f.fits(n),
            DataValuesBuilder::LAM(f) => f.fits(n),
        }
    }

    open spec fn built_as(&self, file: Seq<u8>, r: DataValues<'s>) -> bool {
        match (self, r) {
            (DataValuesBuilder::InlineExpr { params, values }, DataValues::InlineExpr { params: p, values: v }) =>
                params.built_as(file, p) && values.built_as(file, v),
            (DataValuesBuilder::InlineNum { params, values }, DataValues::InlineNum { params: p, values: v }) =>
                params.built_as(file, p) && values.built_as(file, v),
            (DataValuesBuilder::MER(f), DataValues::MER(g)) => f.built_as(file, g),
            (DataValuesBuilder::LAM(f), DataValues::LAM(g)) => f.built_as(file, g),
            _ => false,
        }
    }

    fn build(&self, file: &'s [u8]) -> (r: DataValues<'s>) {
        match self {
            DataValuesBuilder::InlineExpr { params, values } =>
                DataValues::InlineExpr { params: params.build(file), values: values.build(file) },
            DataValuesBuilder::InlineNum { params, values } =>
                DataValues::InlineNum { params: params.build(file), values: values.build(file) },
            DataValuesBuilder::MER(f) => DataValues::MER(f.build(file)),
            DataValuesBuilder::LAM(f) => DataValues::LAM(f.build(file)),
        }
    }
}

/// `.DATA name ... .ENDDATA`
#[derive(Debug, Clone)]
pub struct Data<'s> {
    pub name: &'s [u8],
    pub values: DataValues<'s>,
}

impl<'s> Builder<'s> for DataBuilder {
    type Out = Data<'s>;

    open spec fn fits(&self, n: nat) -> bool {
        self.name.fits(n) && self.values.fits(n)
    }

    open spec fn built_as(&self, file: Seq<u8>, r: Data<'s>) -> bool {
        self.name.built_as(file, r.name) && self.values.built_as(file, r.values)
    }

    fn build(&self, file: &'s [u8]) -> (r: Data<'s>) {
        Data { name: self.name.build(file), values: self.values.build(file) }
    }
}

/// `n1 n2 value`
#[derive(Debug, Clone)]
pub struct Resistor<'s> {
    pub n1: &'s [u8],
    pub n2: &'s [u8],
    pub value: Value<'s>,
}

impl<'s> Builder<'s> for ResistorBuilder {
    type Out = Resistor<'s>;

    open spec fn fits(&self, n: nat) -> bool {
        self.n1.fits(n) && self.n2.fits(n) && self.value.fits(n)
    }

    open spec fn built_as(&self, file: Seq<u8>, r: Resistor<'s>) -> bool {
        self.n1.built_as(file, r.n1) && self.n2.built_as(file, r.n2) && self.value.built_as(file, r.value)
    }

    fn build(&self, file: &'s [u8]) -> (r: Resistor<'s>) {
        Resistor { n1: self.n1.build(file), n2: self.n2.build(file), value: self.value.build(file) }
    }
}

/// `n1 n2 value`
#[derive(Debug, Clone)]
pub struct Capacitor<'s> {
    pub n1: &'s [u8],
    pub n2: &'s [u8],
    pub value: Value<'s>,
}

impl<'s> Builder<'s> for CapacitorBuilder {
    type Out = Capacitor<'s>;

    open spec fn fits(&self, n: nat) -> bool {
        self.n1.fits(n) && self.n2.fits(n) && self.value.fits(n)
    }

    open spec fn built_as(&self, file: Seq<u8>, r: Capacitor<'s>) -> bool {
        self.n1.built_as(file, r.n1) && self.n2.built_as(file, r.n2) && self.value.built_as(file, r.value)
    }

    fn build(&self, file: &'s [u8]) -> (r: Capacitor<'s>) {
        Capacitor { n1: self.n1.build(file), n2: self.n2.build(file), value: self.value.build(file) }
    }
}

/// `n1 n2 value`
#[derive(Debug, Clone)]
pub struct Inductor<'s> {
    pub n1: &'s [u8],
    pub n2: &'s [u8],
    pub value: Value<'s>,
}

impl<'s> Builder<'s> for InductorBuilder {
    type Out = Inductor<'s>;

    open spec fn fits(&self, n: nat) -> bool {
        self.n1.fits(n) && self.n2.fits(n) && self.value.fits(n)
    }

    open spec fn built_as(&self, file: Seq<u8>, r: Inductor<'s>) -> bool {
        self.n1.built_as(file, r.n1) && self.n2.built_as(file, r.n2) && self.value.built_as(file, r.value)
    }

    fn build(&self, file: &'s [u8]) -> (r: Inductor<'s>) {
        Inductor { n1: self.n1.build(file), n2: self.n2.build(file), value: self.value.build(file) }
    }
}

impl<'s> Builder<'s> for EdgeType {
    type Out = EdgeType;

    open spec fn fits(&self, n: nat) -> bool {
        true
    }

    open spec fn built_as(&self, file: Seq<u8>, r: EdgeType) -> bool {
        r == *self
    }

    fn build(&self, file: &'s [u8]) -> (r: EdgeType) {
        *self
    }
}

/// A point of a piecewise linear source.
#[derive(Debug, Clone)]
pub struct TimeValuePoint<'s> {
    pub time: Value<'s>,
    pub value: Value<'s>,
}

impl<'s> Builder<'s> for TimeValuePointBuilder {
    type Out = TimeValuePoint<'s>;

    open spec fn fits(&self, n: nat) -> bool {
        self.time.fits(n) && self.value.fits(n)
    }

    open spec fn built_as(&self, file: Seq<u8>, r: TimeValuePoint<'s>) -> bool {
        self.time.built_as(file, r.time) && self.value.built_as(file, r.value)
    }

    fn build(&self, file: &'s [u8]) -> (r: TimeValuePoint<'s>) {
        TimeValuePoint { time: self.time.build(file), value: self.value.build(file) }
    }
}

/// A piecewise linear source.
#[derive(Debug, Clone)]
pub struct PWL<'s> {
    pub points: Vec<TimeValuePoint<'s>>,
    pub repeat: Option<Value<'s>>,
    pub rstop: Option<Value<'s>>,
    pub stopvalue: Option<Value<'s>>,
    pub stopslope: Option<Value<'s>>,
    pub delay: Option<Value<'s>>,
    pub edgetype: EdgeType,
}

impl<'s> Builder<'s> for PWLBuilder {
    type Out = PWL<'s>;

    open spec fn fits(&self, n: nat) -> bool {
        self.points.fits(n) && self.repeat.fits(n) && self.rstop.fits(n) && self.stopvalue.fits(n)
            && self.stopslope.fits(n) && self.delay.fits(n)
    }

    open spec fn built_as(&self, file: Seq<u8>, r: PWL<'s>) -> bool {
        self.points.built_as(file, r.points) && self.repeat.built_as(file, r.repeat)
            && self.rstop.built_as(file, r.rstop) && self.stopvalue.built_as(file, r.stopvalue)
            && self.stopslope.built_as(file, r.stopslope) && self.delay.built_as(file, r.delay)
            && r.edgetype == self.edgetype
    }

    fn build(&self, file: &'s [u8]) -> (r: PWL<'s>) {
        PWL {
            points: self.points.build(file),
            repeat: self.repeat.build(file),
            rstop: self.rstop.build(file),
            stopvalue: self.stopvalue.build(file),
            stopslope: self.stopslope.build(file),
            delay: self.delay.build(file),
            edgetype: self.edgetype,
        }
    }
}

/// What drives a voltage source.
#[derive(Debug, Clone)]
pub enum VoltageSource<'s> {
    Params(Vec<KeyValue<'s>>),
    Value(Value<'s>),
    PWL(PWL<'s>),
}

impl<'s> Builder<'s> for VoltageSourceBuilder {
    type Out = VoltageSource<'s>;

    open spec fn fits(&self, n: nat) -> bool {
        match self {
            VoltageSourceBuilder::Params(p) => p.fits(n),
            VoltageSourceBuilder::Value(v) => v.fits(n),
            VoltageSourceBuilder::PWL(w) => w.fits(n),
        }
    }

    open spec fn built_as(&self, file: Seq<u8>, r: VoltageSource<'s>) -> bool {
        match (self, r) {
            (VoltageSourceBuilder::Params(p), VoltageSource::Params(q)) => p.built_as(file, q),
            (VoltageSourceBuilder::Value(v), VoltageSource::Value(u)) => v.built_as(file, u),
            (VoltageSourceBuilder::PWL(w), VoltageSource::PWL(x)) => w.built_as(file, x),
            _ => false,
        }
    }

    fn build(&self, file: &'s [u8]) -> (r: VoltageSource<'s>) {
        match self {
            VoltageSourceBuilder::Params(p) => VoltageSource::Params(p.build(file)),
            VoltageSourceBuilder::Value(v) => VoltageSource::Value(v.build(file)),
            VoltageSourceBuilder::PWL(w) => VoltageSource::PWL(w.build(file)),
        }
    }
}

/// What drives a current source.
#[derive(Debug, Clone)]
pub enum CurrentSource<'s> {
    Params(Vec<KeyValue<'s>>),
    Value(Value<'s>),
    PWL(PWL<'s>),
}

impl<'s> Builder<'s> for CurrentSourceBuilder {
    type Out = CurrentSource<'s>;

    open spec fn fits(&self, n: nat) -> bool {
        match self {
            CurrentSourceBuilder::Params(p) => p.fits(n),
            CurrentSourceBuilder::Value(v) => v.fits(n),
            CurrentSourceBuilder::PWL(w) => w.fits(n),
        }
    }

    open spec fn built_as(&self, file: Seq<u8>, r: CurrentSource<'s>) -> bool {
        match (self, r) {
            (CurrentSourceBuilder::Params(p), CurrentSource::Params(q)) => p.built_as(file, q),
            (CurrentSourceBuilder::Value(v), CurrentSource::Value(u)) => v.built_as(file, u),
            (CurrentSourceBuilder::PWL(w), CurrentSource::PWL(x)) => w.built_as(file, x),
            _ => false,
        }
    }

    fn build(&self, file: &'s [u8]) -> (r: CurrentSource<'s>) {
        match self {
            CurrentSourceBuilder::Params(p) => CurrentSource::Params(p.build(file)),
            CurrentSourceBuilder::Value(v) => CurrentSource::Value(v.build(file)),
            CurrentSourceBuilder::PWL(w) => CurrentSource::PWL(w.build(file)),
        }
    }
}

/// `n1 n2 source`
#[derive(Debug, Clone)]
pub struct Voltage<'s> {
    pub n1: &'s [u8],
    pub n2: &'s [u8],
    pub source: VoltageSource<'s>,
}

impl<'s> Builder<'s> for VoltageBuilder {
    type Out = Voltage<'s>;

    open spec fn fits(&self, n: nat) -> bool {
        self.n1.fits(n) && self.n2.fits(n) && self.source.fits(n)
    }

    open spec fn built_as(&self, file: Seq<u8>, r: Voltage<'s>) -> bool {
        self.n1.built_as(file, r.n1) && self.n2.built_as(file, r.n2) && self.source.built_as(file, r.source)
    }

    fn build(&self, file: &'s [u8]) -> (r: Voltage<'s>) {
        Voltage { n1: self.n1.build(file), n2: self.n2.build(file), source: self.source.build(file) }
    }
}

/// `n1 n2 source`
#[derive(Debug, Clone)]
pub struct Current<'s> {
    pub n1: &'s [u8],
    pub n2: &'s [u8],
    pub source: CurrentSource<'s>,
}

impl<'s> Builder<'s> for CurrentBuilder {
    type Out = Current<'s>;

    open spec fn fits(&self, n: nat) -> bool {
        self.n1.fits(n) && self.n2.fits(n) && self.source.fits(n)
    }

    open spec fn built_as(&self, file: Seq<u8>, r: Current<'s>) -> bool {
        self.n1.built_as(file, r.n1) && self.n2.built_as(file, r.n2) && self.source.built_as(file, r.source)
    }

    fn build(&self, file: &'s [u8]) -> (r: Current<'s>) {
        Current { n1: self.n1.build(file), n2: self.n2.build(file), source: self.source.build(file) }
    }
}

/// `nd ng ns [nb] model params`
#[derive(Debug, Clone)]
pub struct MOSFET<'s> {
    pub nd: &'s [u8],
    pub ng: &'s [u8],
    pub ns: &'s [u8],
    pub nb: Option<&'s [u8]>,
    pub mname: &'s [u8],
    pub params: Vec<KeyValue<'s>>,
}

impl<'s> Builder<'s> for MOSFETBuilder {
    type Out = MOSFET<'s>;

    open spec fn fits(&self, n: nat) -> bool {
        self.nd.fits(n) && self.ng.fits(n) && self.ns.fits(n) && self.nb.fits(n) && self.mname.fits(n)
            && self.params.fits(n)
    }

    open spec fn built_as(&self, file: Seq<u8>, r: MOSFET<'s>) -> bool {
        self.nd.built_as(file, r.nd) && self.ng.built_as(file, r.ng) && self.ns.built_as(file, r.ns)
            && self.nb.built_as(file, r.nb) && self.mname.built_as(file, r.mname) && self.params.built_as(file, r.params)
    }

    fn build(&self, file: &'s [u8]) -> (r: MOSFET<'s>) {
        MOSFET {
            nd: self.nd.build(file),
            ng: self.ng.build(file),
            ns: self.ns.build(file),
            nb: self.nb.build(file),
            mname: self.mname.build(file),
            params: self.params.build(file),
        }
    }
}

/// `nc nb ne [ns] model params`
#[derive(Debug, Clone)]
pub struct BJT<'s> {
    pub nc: &'s [u8],
    pub nb: &'s [u8],
    pub ne: &'s [u8],
    pub ns: Option<&'s [u8]>,
    pub mname: &'s [u8],
    pub params: Vec<KeyValue<'s>>,
}

impl<'s> Builder<'s> for BJTBuilder {
    type Out = BJT<'s>;

    open spec fn fits(&self, n: nat) -> bool {
        self.nc.fits(n) && self.nb.fits(n) && self.ne.fits(n) && self.ns.fits(n) && self.mname.fits(n)
            && self.params.fits(n)
    }

    open spec fn built_as(&self, file: Seq<u8>, r: BJT<'s>) -> bool {
        self.nc.built_as(file, r.nc) && self.nb.built_as(file, r.nb) && self.ne.built_as(file, r.ne)
            && self.ns.built_as(file, r.ns) && self.mname.built_as(file, r.mname) && self.params.built_as(file, r.params)
    }

    fn build(&self, file: &'s [u8]) -> (r: BJT<'s>) {
        BJT {
            nc: self.nc.build(file),
            nb: self.nb.build(file),
            ne: self.ne.build(file),
            ns: self.ns.build(file),
            mname: self.mname.build(file),
            params: self.params.build(file),
        }
    }
}

/// `n+ n- model params`
#[derive(Debug, Clone)]
pub struct Diode<'s> {
    pub nplus: &'s [u8],
    pub nminus: &'s [u8],
    pub mname: &'s [u8],
    pub params: Vec<KeyValue<'s>>,
}

impl<'s> Builder<'s> for DiodeBuilder {
    type Out = Diode<'s>;

    open spec fn fits(&self, n: nat) -> bool {
        self.nplus.fits(n) && self.nminus.fits(n) && self.mname.fits(n) && self.params.fits(n)
    }

    open spec fn built_as(&self, file: Seq<u8>, r: Diode<'s>) -> bool {
        self.nplus.built_as(file, r.nplus) && self.nminus.built_as(file, r.nminus)
            && self.mname.built_as(file, r.mname) && self.params.built_as(file, r.params)
    }

    fn build(&self, file: &'s [u8]) -> (r: Diode<'s>) {
        Diode {
            nplus: self.nplus.build(file),
            nminus: self.nminus.build(file),
            mname: self.mname.build(file),
            params: self.params.build(file),
        }
    }
}

/// A subcircuit call: its nodes, the subcircuit and the parameters.
#[derive(Debug, Clone)]
pub struct SubcktCall<'s> {
    pub nodes: Vec<&'s [u8]>,
    pub cktname: &'s [u8],
    pub params: Vec<KeyValue<'s>>,
}

impl<'s> Builder<'s> for SubcktBuilder {
    type Out = SubcktCall<'s>;

    open spec fn fits(&self, n: nat) -> bool {
        self.nodes.fits(n) && self.cktname.fits(n) && self.params.fits(n)
    }

    open spec fn built_as(&self, file: Seq<u8>, r: SubcktCall<'s>) -> bool {
        self.nodes.built_as(file, r.nodes) && self.cktname.built_as(file, r.cktname) && self.params.built_as(file, r.params)
    }

    fn build(&self, file: &'s [u8]) -> (r: SubcktCall<'s>) {
        SubcktCall { nodes: self.nodes.build(file), cktname: self.cktname.build(file), params: self.params.build(file) }
    }
}

/// An element's nodes, model and parameters.
#[derive(Debug, Clone)]
pub enum InstanceCtx<'s> {
    Resistor(Resistor<'s>),
    Capacitor(Capacitor<'s>),
    Inductor(Inductor<'s>),
    Voltage(Voltage<'s>),
    Current(Current<'s>),
    MOSFET(MOSFET<'s>),
    BJT(BJT<'s>),
    Diode(Diode<'s>),
    Subckt(SubcktCall<'s>),
    Unknown { ty: u8, nodes: Vec<&'s [u8]>, params: Vec<KeyValue<'s>> },
}

impl<'s> Builder<'s> for InstanceCtxBuilder {
    type Out = InstanceCtx<'s>;

    open spec fn fits(&self, n: nat) -> bool {
        match self {
            InstanceCtxBuilder::Resistor(x) => x.fits(n),
            InstanceCtxBuilder::Capacitor(x) => x.fits(n),
            InstanceCtxBuilder::Inductor(x) => x.fits(n),
            InstanceCtxBuilder::Voltage(x) => x.fits(n),
            InstanceCtxBuilder::Current(x) => x.fits(n),
            InstanceCtxBuilder::MOSFET(x) => x.fits(n),
            InstanceCtxBuilder::BJT(x) => x.fits(n),
            InstanceCtxBuilder::Diode(x) => x.fits(n),
            InstanceCtxBuilder::Subckt(x) => x.fits(n),
            InstanceCtxBuilder::Unknown { nodes, params, .. } => nodes.fits(n) && params.fits(n),
        }
    }

    open spec fn built_as(&self, file: Seq<u8>, r: InstanceCtx<'s>) -> bool {
        match (self, r) {
            (InstanceCtxBuilder::Resistor(x), InstanceCtx::Resistor(y)) => x.built_as(file, y),
            (InstanceCtxBuilder::Capacitor(x), InstanceCtx::Capacitor(y)) => x.built_as(file, y),
            (InstanceCtxBuilder::Inductor(x), InstanceCtx::Inductor(y)) => x.built_as(file, y),
            (InstanceCtxBuilder::Voltage(x), InstanceCtx::Voltage(y)) => x.built_as(file, y),
            (InstanceCtxBuilder::Current(x), InstanceCtx::Current(y)) => x.built_as(file, y),
            (InstanceCtxBuilder::MOSFET(x), InstanceCtx::MOSFET(y)) => x.built_as(file, y),
            (InstanceCtxBuilder::BJT(x), InstanceCtx::BJT(y)) => x.built_as(file, y),
            (InstanceCtxBuilder::Diode(x), InstanceCtx::Diode(y)) => x.built_as(file, y),
            (InstanceCtxBuilder::Subckt(x), InstanceCtx::Subckt(y)) => x.built_as(file, y),
            (InstanceCtxBuilder::Unknown { ty, nodes, params }, InstanceCtx::Unknown { ty: t, nodes: ns, params: ps }) =>
                t == ty && nodes.built_as(file, ns) && params.built_as(file, ps),
            _ => false,
        }
    }

    fn build(&self, file: &'s [u8]) -> (r: InstanceCtx<'s>) {
        match self {
            InstanceCtxBuilder::Resistor(x) => InstanceCtx::Resistor(x.build(file)),
            InstanceCtxBuilder::Capacitor(x) => InstanceCtx::Capacitor(x.build(file)),
            InstanceCtxBuilder::Inductor(x) => InstanceCtx::Inductor(x.build(file)),
            InstanceCtxBuilder::Voltage(x) => InstanceCtx::Voltage(x.build(file)),
            InstanceCtxBuilder::Current(x) => InstanceCtx::Current(x.build(file)),
            InstanceCtxBuilder::MOSFET(x) => InstanceCtx::MOSFET(x.build(file)),
            InstanceCtxBuilder::BJT(x) => InstanceCtx::BJT(x.build(file)),
            InstanceCtxBuilder::Diode(x) => InstanceCtx::Diode(x.build(file)),
            InstanceCtxBuilder::Subckt(x) => InstanceCtx::Subckt(x.build(file)),
            InstanceCtxBuilder::Unknown { ty, nodes, params } =>
                InstanceCtx::Unknown { ty: *ty, nodes: nodes.build(file), params: params.build(file) },
        }
    }
}

/// An element: its name and what follows it.
#[derive(Debug, Clone)]
pub struct Instance<'s> {
    pub name: &'s [u8],
    pub ctx: InstanceCtx<'s>,
}

impl<'s> Builder<'s> for InstanceBuilder {
    type Out = Instance<'s>;

    open spec fn fits(&self, n: nat) -> bool {
        self.name.fits(n) && self.ctx.fits(n)
    }

    open spec fn built_as(&self, file: Seq<u8>, r: Instance<'s>) -> bool {
        self.name.built_as(file, r.name) && self.ctx.built_as(file, r.ctx)
    }

    fn build(&self, file: &'s [u8]) -> (r: Instance<'s>) {
        Instance { name: self.name.build(file), ctx: self.ctx.build(file) }
    }
}

} // verus!
