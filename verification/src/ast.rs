//! The syntax tree as the parser produces it: every name is a [`Span`] of the
//! file it was read from.
use vstd::prelude::*;
use crate::span::Span;

verus! {

/// The scale suffix of a number (`1k`, `3.3u`, `20db`, ...).
#[derive(Debug, Clone, Copy, PartialEq, Eq, Structural)]
pub enum Unit {
    /// `T`: 1e12
    T,
    /// `G`: 1e9
    G,
    /// `ME`, `MEG`, `X`, `Z`: 1e6
    Meg,
    /// `K`: 1e3
    K,
    /// `MI`, `MIL`: 25.4e-6
    Mil,
    /// `U`: 1e-6
    U,
    /// `N`: 1e-9
    N,
    /// `P`: 1e-12
    P,
    /// `F`: 1e-15
    F,
    /// `A`: 1e-18
    A,
    /// `DB`: the number is a level in decibel, its value is `10^(x/20)`
    DB,
    /// `MIN`: 60
    Min,
    /// `HR`: 3600
    Hr,
    /// `DAY`: 86400
    Day,
    /// `YR`: 31536000
    Yr,
}

/// A numeric literal: the span of its decimal text and its scale suffix.
#[derive(Debug, Clone, Copy, PartialEq, Eq, Structural)]
pub struct NumLit {
    pub span: Span,
    pub unit: Option<Unit>,
}

#[derive(Debug, Clone, Copy, PartialEq, Eq, Structural)]
pub enum ValueBuilder {
    Num(NumLit),
    Expr(Span),
}

#[derive(Debug, Clone, Copy, PartialEq, Eq, Structural)]
pub struct KeyValueBuilder {
    pub k: Span,
    pub v: ValueBuilder,
}

#[derive(Debug, Clone, Copy, PartialEq, Eq, Structural)]
pub enum TokenBuilder {
    KV(KeyValueBuilder),
    Value(ValueBuilder),
    V(Span),
    I(Span),
}

} // verus!

verus! {

/// Commands with a known meaning that are kept as token lists.
#[derive(Debug, Clone, Copy, PartialEq, Eq, Structural)]
pub enum GeneralCmd {
    /// `.ic` initial condition
    Ic,
    /// `.meas` measurement
    Meas,
}

#[derive(Debug, Clone)]
pub struct GeneralBuilder {
    pub cmd: GeneralCmd,
    pub tokens: Vec<TokenBuilder>,
}

/// A command that is not understood: its name and its tokens.
#[derive(Debug, Clone)]
pub struct UnknwonBuilder {
    pub cmd: Span,
    pub tokens: Vec<TokenBuilder>,
}

/// The device kind of a `.model`.
#[derive(Debug, Clone, Copy, PartialEq, Eq, Structural)]
pub enum ModelTypeBuilder {
    /// operational amplifier model
    AMP,
    /// capacitor model
    C,
    /// magnetic core model
    CORE,
    /// diode model
    D,
    /// inductor model or magnetic core mutual inductor model
    L,
    /// n-channel JFET model
    NJF,
    /// n-channel MOSFET model
    NMOS,
    /// npn BJT model
    NPN,
    /// optimization model
    OPT,
    /// p-channel JFET model
    PJF,
    /// p-channel MOSFET model
    PMOS,
    /// pnp BJT model
    PNP,
    /// resistor model
    R,
    /// lossy transmission line model (lumped)
    U,
    /// lossy transmission line model
    W,
    /// S-parameter
    S,
    Unknown(Span),
}

/// `.MODEL name type params`
#[derive(Debug, Clone)]
pub struct ModelBuilder {
    pub name: Span,
    pub model_type: ModelTypeBuilder,
    pub params: Vec<KeyValueBuilder>,
}

#[derive(Debug, Clone, Copy, PartialEq, Eq, Structural)]
pub struct PnameColNumBuilder {
    pub pname: Span,
    pub col_num: usize,
}

#[derive(Debug, Clone)]
pub struct DataFileBuilder {
    pub file: Span,
    pub pname_col_num: Vec<PnameColNumBuilder>,
}

#[derive(Debug, Clone)]
pub struct DataFilesBuilder {
    pub files: Vec<DataFileBuilder>,
    pub out: Option<Span>,
}

#[derive(Debug, Clone)]
pub enum DataValuesBuilder {
    InlineExpr { params: Vec<Span>, values: Vec<ValueBuilder> },
    InlineNum { params: Vec<Span>, values: Vec<NumLit> },
    /// Concatenated (series merging) data files to use.
    MER(DataFilesBuilder),
    /// Column-laminated (parallel merging) data files to use.
    LAM(DataFilesBuilder),
}

/// `.DATA name ... .ENDDATA`
#[derive(Debug, Clone)]
pub struct DataBuilder {
    pub name: Span,
    pub values: DataValuesBuilder,
}

pub struct PnameColNumView {
    pub pname: Span,
    pub col_num: usize,
}

pub struct DataFileView {
    pub file: Span,
    pub pname_col_num: Seq<PnameColNumBuilder>,
}

pub struct DataFilesView {
    pub files: Seq<DataFileView>,
    pub out: Option<Span>,
}

pub enum DataValuesView {
    InlineExpr { params: Seq<Span>, values: Seq<ValueBuilder> },
    InlineNum { params: Seq<Span>, values: Seq<NumLit> },
    MER(DataFilesView),
    LAM(DataFilesView),
}

pub struct DataView {
    pub name: Span,
    pub values: DataValuesView,
}

pub struct ModelView {
    pub name: Span,
    pub model_type: ModelTypeBuilder,
    pub params: Seq<KeyValueBuilder>,
}

pub struct UnknwonView {
    pub cmd: Span,
    pub tokens: Seq<TokenBuilder>,
}

pub struct GeneralView {
    pub cmd: GeneralCmd,
    pub tokens: Seq<TokenBuilder>,
}

impl View for DataFileBuilder {
    type V = DataFileView;
    open spec fn view(&self) -> DataFileView {
        DataFileView { file: self.file, pname_col_num: self.pname_col_num@ }
    }
}

impl View for DataFilesBuilder {
    type V = DataFilesView;
    open spec fn view(&self) -> DataFilesView {
        DataFilesView { files: self.files@.map_values(|f: DataFileBuilder| f@), out: self.out }
    }
}

impl View for DataValuesBuilder {
    type V = DataValuesView;
    open spec fn view(&self) -> DataValuesView {
        match self {
            DataValuesBuilder::InlineExpr { params, values } => DataValuesView::InlineExpr { params: params@, values: values@ },
            DataValuesBuilder::InlineNum { params, values } => DataValuesView::InlineNum { params: params@, values: values@ },
            DataValuesBuilder::MER(f) => DataValuesView::MER(f@),
            DataValuesBuilder::LAM(f) => DataValuesView::LAM(f@),
        }
    }
}

impl View for DataBuilder {
    type V = DataView;
    open spec fn view(&self) -> DataView {
        DataView { name: self.name, values: self.values@ }
    }
}

impl View for ModelBuilder {
    type V = ModelView;
    open spec fn view(&self) -> ModelView {
        ModelView { name: self.name, model_type: self.model_type, params: self.params@ }
    }
}

impl View for UnknwonBuilder {
    type V = UnknwonView;
    open spec fn view(&self) -> UnknwonView {
        UnknwonView { cmd: self.cmd, tokens: self.tokens@ }
    }
}

impl View for GeneralBuilder {
    type V = GeneralView;
    open spec fn view(&self) -> GeneralView {
        GeneralView { cmd: self.cmd, tokens: self.tokens@ }
    }
}

} // verus!
