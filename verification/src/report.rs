//! The text of an error report: where the error is (file, line, and the
//! line itself with a marker under the place), and what it is.
use vstd::prelude::*;
use vstd::string::StringSliceAdditionalSpecFns;
use crate::err::{ParseError, ParseErrorInner};
use crate::span::{FileId, FileIdView, Pos, Span};
use crate::chain::{chain_at, chain_len, Chain};
use crate::outside::chain_entries;

verus! {

/// The escape sequences that start and end one style of text (empty when
/// the output is not colored).
#[derive(Debug, Clone)]
pub struct Style {
    pub prefix: Vec<u8>,
    pub suffix: Vec<u8>,
}

/// The styles of a report: messages, error kinds, and markers.
#[derive(Debug, Clone)]
pub struct Styles {
    pub msg: Style,
    pub typ: Style,
    pub err: Style,
}

/// `t` in the style `s`.
pub open spec fn styled(s: Style, t: Seq<u8>) -> Seq<u8> {
    s.prefix@ + t + s.suffix@
}

/// The bytes of a text.
pub open spec fn bytes_of(s: Seq<char>) -> Seq<u8> {
    vstd::utf8::encode_utf8(s)
}

/// The decimal digits of `n`.
pub open spec fn spec_decimal(n: nat) -> Seq<u8>
    decreases n,
{
    if n < 10 { seq![(0x30 + n) as u8] } else { spec_decimal(n / 10) + seq![(0x30 + n % 10) as u8] }
}

/// The start of the line that holds offset `i`: just after the last newline before it.
pub open spec fn line_start(s: Seq<u8>, i: int) -> int
    decreases i,
{
    if i <= 0 { 0 } else if s[i - 1] == 0x0a { i } else { line_start(s, i - 1) }
}

/// The end of the line that holds offset `i`: the first newline at or after it.
pub open spec fn line_end(s: Seq<u8>, i: int) -> int
    decreases s.len() - i,
{
    if i >= s.len() { s.len() as int } else if s[i] == 0x0a { i } else { line_end(s, i + 1) }
}

/// `n` spaces.
pub open spec fn spaces(n: nat) -> Seq<u8> {
    Seq::new(n, |k: int| 0x20u8)
}

/// The bytes of a literal.
pub open spec fn lit(s: &str) -> Seq<u8> {
    s.spec_bytes()
}

/// `File "path"`, the line of the request when there is one, and the section.
pub open spec fn spec_file_display(id: FileIdView, pos: Option<Pos>) -> Seq<u8> {
    let (path, section) = match id {
        FileIdView::Include { path } => (path, None::<Seq<char>>),
        FileIdView::Section { path, section } => (path, Some(section)),
    };
    let line = match pos {
        Some(p) => lit(", line ") + spec_decimal(p.line_num as nat),
        None => Seq::empty(),
    };
    let sec = match section {
        Some(s) => lit(", section ") + bytes_of(s),
        None => Seq::empty(),
    };
    lit("File \"") + bytes_of(path) + lit("\"") + line + sec
}

/// The chain entries `chain[..k]`, each on its line, the one at `idx`
/// marked, each followed by an arrow line.
pub open spec fn spec_chain_lines(st: Styles, chain: Seq<(FileIdView, Option<Pos>)>, idx: int, k: int) -> Seq<u8>
    decreases k,
{
    if k <= 0 || k > chain.len() {
        Seq::empty()
    } else {
        spec_chain_lines(st, chain, idx, k - 1) + spec_chain_line(st, chain[k - 1].0, chain[k - 1].1, k - 1 == idx)
    }
}

/// The report of a circular definition found in the chain `c` at `idx`.
pub open spec fn spec_circular_text(st: Styles, cv: Seq<(FileIdView, Option<Pos>)>, idx: int) -> Seq<u8> {
    let d = spec_file_display(cv[idx].0, cv[idx].1);
    styled(st.typ, lit("CircularDefinition")) + lit(": ") + styled(st.msg, lit("Detect circular definition in ") + d)
        + lit("\n") + spec_chain_lines(st, cv, idx, cv.len() as int)
        + styled(st.err, lit(" * ") + d) + lit("\n")
}

/// The kind and message of the error.
pub open spec fn spec_kind_text(st: Styles, err: ParseErrorInner, file: Seq<u8>) -> Seq<u8> {
    match err {
        ParseErrorInner::IO(m) => styled(st.typ, lit("Error")) + lit(": ") + styled(st.msg, bytes_of(m@)) + lit("\n"),
        ParseErrorInner::NoLibSection { path, section } => styled(st.typ, lit("Error")) + lit(": ")
            + styled(st.msg, lit("Can NOT find section `") + bytes_of(section@) + lit("` in file \"") + bytes_of(path@) + lit("\""))
            + lit("\n"),
        ParseErrorInner::Syntax => styled(st.typ, lit("ParserError")) + lit(": ") + styled(st.msg, lit("Syntax")),
        ParseErrorInner::Unknown(sp) => styled(st.typ, lit("SyntaxError")) + lit(": ")
            + styled(st.msg, lit("Unknwon command `") + file.subrange(sp.start as int, sp.end as int) + lit("`")) + lit("\n"),
        ParseErrorInner::CircularDefinition(c, idx) =>
            spec_circular_text(st, chain_entries(c), idx as int),
    }
}

/// Where the error is: the file, and when the error has a position, its
/// line number, the line itself and a marker under the position.
pub open spec fn spec_place_text(st: Styles, path: Seq<char>, pos: Option<Pos>, file: Seq<u8>) -> Seq<u8> {
    let head = lit("\nFile ") + styled(st.msg, lit("\"") + bytes_of(path) + lit("\""));
    match pos {
        Some(p) => {
            let a = line_start(file, p.start as int);
            let b = line_end(file, p.start as int);
            head + lit(", line ") + styled(st.msg, spec_decimal(p.line_num as nat))
                + lit("\n") + file.subrange(a, b) + lit("\n") + spaces((p.start - a) as nat) + styled(st.err, lit("<-"))
        },
        None => head,
    }
}

/// The report of `err`, found in the file `path` whose text is `file`.
pub open spec fn spec_report(st: Styles, err: ParseError, path: Seq<char>, file: Seq<u8>) -> Seq<u8> {
    spec_place_text(st, path, err.pos, file) + lit("\n") + spec_kind_text(st, err.err, file)
}

/// The report can be written: the position lies in the file, the span of
/// an unknown command too, and a circular definition names an entry of its chain.
pub open spec fn reportable(err: ParseError, file: Seq<u8>) -> bool {
    &&& err.pos matches Some(p) ==> p.start <= file.len()
    &&& err.err matches ParseErrorInner::Unknown(sp) ==> sp.start <= sp.end <= file.len()
    &&& err.err matches ParseErrorInner::CircularDefinition(c, i) ==> i < chain_entries(c).len()
}

fn put(f: &mut Vec<u8>, piece: &[u8])
    ensures final(f)@ == old(f)@ + piece@,
{
    let mut tail = vstd::slice::slice_to_vec(piece);
    f.append(&mut tail);
}

fn put_str(f: &mut Vec<u8>, s: &str)
    ensures final(f)@ == old(f)@ + s.spec_bytes(),
{
    put(f, s.as_bytes());
}

fn put_styled(f: &mut Vec<u8>, s: &Style, t: &[u8])
    ensures final(f)@ == old(f)@ + styled(*s, t@),
{
    put(f, s.prefix.as_slice());
    put(f, t);
    put(f, s.suffix.as_slice());
}

/// Writes the decimal digits of `n`.
pub fn put_decimal(f: &mut Vec<u8>, n: u32)
    ensures final(f)@ == old(f)@ + spec_decimal(n as nat),
    decreases n,
{
    if n < 10 {
        f.push(0x30 + n as u8);
    } else {
        put_decimal(f, n / 10);
        f.push(0x30 + (n % 10) as u8);
    }
}

fn find_line_start(s: &[u8], i: usize) -> (r: usize)
    requires i <= s@.len(),
    ensures r == line_start(s@, i as int), r <= i,
{
    let mut k = i;
    while k > 0 && s[k - 1] != 0x0a
        invariant
            k <= i <= s@.len(),
            line_start(s@, k as int) == line_start(s@, i as int),
        decreases k,
    {
        k = k - 1;
    }
    k
}

fn find_line_end(s: &[u8], i: usize) -> (r: usize)
    requires i <= s@.len(),
    ensures r == line_end(s@, i as int), i <= r <= s@.len(),
{
    let mut k = i;
    while k < s.len() && s[k] != 0x0a
        invariant
            i <= k <= s@.len(),
            line_end(s@, k as int) == line_end(s@, i as int),
        decreases s@.len() - k,
    {
        k = k + 1;
    }
    k
}

/// Writes how the file `id` (at `pos`) is shown: `File "path"`, then
/// `, line N` and `, section S` where they apply.
pub fn put_file_display(f: &mut Vec<u8>, id: &FileId, pos: Option<Pos>)
    ensures final(f)@ == old(f)@ + spec_file_display(id@, pos),
{
    let ghost f0 = f@;
    put_str(f, "File \"");
    match id {
        FileId::Include { path } => put_str(f, path.as_str()),
        FileId::Section { path, .. } => put_str(f, path.as_str()),
    }
    put_str(f, "\"");
    match pos {
        Some(p) => {
            put_str(f, ", line ");
            put_decimal(f, p.line_num);
        },
        None => {},
    }
    match id {
        FileId::Section { section, .. } => {
            put_str(f, ", section ");
            put_str(f, section.as_str());
        },
        FileId::Include { .. } => {},
    }
    assert(f@ =~= f0 + spec_file_display(id@, pos));
}

/// One line of the chain of a circular definition.
pub open spec fn spec_chain_line(st: Styles, id: FileIdView, pos: Option<Pos>, marked: bool) -> Seq<u8> {
    let d = spec_file_display(id, pos);
    (if marked { styled(st.err, lit(" * ") + d) } else { lit("   ") + d }) + lit("\n     ↓\n")
}

fn put_chain_line(f: &mut Vec<u8>, st: &Styles, id: &FileId, pos: Option<Pos>, marked: bool)
    ensures final(f)@ == old(f)@ + spec_chain_line(*st, id@, pos, marked),
{
    let ghost f0 = f@;
    if marked {
        put(f, st.err.prefix.as_slice());
        put_str(f, " * ");
        put_file_display(f, id, pos);
        put(f, st.err.suffix.as_slice());
    } else {
        put_str(f, "   ");
        put_file_display(f, id, pos);
    }
    put_str(f, "\n     ↓\n");
    assert(f@ =~= f0 + spec_chain_line(*st, id@, pos, marked));
}

fn put_chain_lines(f: &mut Vec<u8>, st: &Styles, c: &Chain, idx: usize)
    ensures
        final(f)@ == old(f)@ + spec_chain_lines(*st, chain_entries(*c), idx as int, chain_entries(*c).len() as int),
{
    let ghost g = f@;
    let ghost cv = chain_entries(*c);
    let n = chain_len(c);
    let mut k: usize = 0;
    while k < n
        invariant
            k <= n,
            n == cv.len(),
            cv == chain_entries(*c),
            f@ == g + spec_chain_lines(*st, cv, idx as int, k as int),
        decreases n - k,
    {
        match chain_at(c, k) {
            Some((id, pos)) => {
                put_chain_line(f, st, id, *pos, k == idx);
            },
            None => {},
        }
        k = k + 1;
        assert(f@ =~= g + spec_chain_lines(*st, cv, idx as int, k as int));
    }
}

fn put_circular(f: &mut Vec<u8>, st: &Styles, c: &Chain, idx: usize)
    requires idx < chain_entries(*c).len(),
    ensures final(f)@ == old(f)@ + spec_circular_text(*st, chain_entries(*c), idx as int),
{
    let ghost f0 = f@;
    let ghost cv = chain_entries(*c);
    let (id, pos) = match chain_at(c, idx) {
        Some((id, pos)) => (id, *pos),
        None => { return; },
    };
    put_styled(f, &st.typ, "CircularDefinition".as_bytes());
    put_str(f, ": ");
    put(f, st.msg.prefix.as_slice());
    put_str(f, "Detect circular definition in ");
    put_file_display(f, id, pos);
    put(f, st.msg.suffix.as_slice());
    put_str(f, "\n");
    put_chain_lines(f, st, c, idx);
    put(f, st.err.prefix.as_slice());
    put_str(f, " * ");
    put_file_display(f, id, pos);
    put(f, st.err.suffix.as_slice());
    put_str(f, "\n");
    assert(f@ =~= f0 + spec_circular_text(*st, cv, idx as int));
}

fn put_io(f: &mut Vec<u8>, st: &Styles, m: &String)
    ensures final(f)@ == old(f)@ + spec_kind_text(*st, ParseErrorInner::IO(*m), Seq::empty()),
{
    let ghost f0 = f@;
    put_styled(f, &st.typ, "Error".as_bytes());
    put_str(f, ": ");
    put_styled(f, &st.msg, m.as_str().as_bytes());
    put_str(f, "\n");
    assert(f@ =~= f0 + spec_kind_text(*st, ParseErrorInner::IO(*m), Seq::empty()));
}

fn put_no_section(f: &mut Vec<u8>, st: &Styles, path: &String, section: &String)
    ensures
        final(f)@ == old(f)@ + spec_kind_text(*st, ParseErrorInner::NoLibSection { path: *path, section: *section }, Seq::empty()),
{
    let ghost f0 = f@;
    put_styled(f, &st.typ, "Error".as_bytes());
    put_str(f, ": ");
    put(f, st.msg.prefix.as_slice());
    put_str(f, "Can NOT find section `");
    put_str(f, section.as_str());
    put_str(f, "` in file \"");
    put_str(f, path.as_str());
    put_str(f, "\"");
    put(f, st.msg.suffix.as_slice());
    put_str(f, "\n");
    assert(f@ =~= f0 + spec_kind_text(*st, ParseErrorInner::NoLibSection { path: *path, section: *section }, Seq::empty()));
}

fn put_unknown(f: &mut Vec<u8>, st: &Styles, sp: Span, file: &[u8])
    requires sp.start <= sp.end <= file@.len(),
    ensures final(f)@ == old(f)@ + spec_kind_text(*st, ParseErrorInner::Unknown(sp), file@),
{
    let ghost f0 = f@;
    put_styled(f, &st.typ, "SyntaxError".as_bytes());
    put_str(f, ": ");
    put(f, st.msg.prefix.as_slice());
    put_str(f, "Unknwon command `");
    let (a, _) = file.split_at(sp.end);
    let (_, t) = a.split_at(sp.start);
    assert(t@ =~= file@.subrange(sp.start as int, sp.end as int));
    put(f, t);
    put_str(f, "`");
    put(f, st.msg.suffix.as_slice());
    put_str(f, "\n");
    assert(f@ =~= f0 + spec_kind_text(*st, ParseErrorInner::Unknown(sp), file@));
}

fn put_kind(f: &mut Vec<u8>, st: &Styles, err: &ParseErrorInner, file: &[u8])
    requires
        err matches ParseErrorInner::Unknown(sp) ==> sp.start <= sp.end <= file@.len(),
        err matches ParseErrorInner::CircularDefinition(c, i) ==> i < chain_entries(*c).len(),
    ensures final(f)@ == old(f)@ + spec_kind_text(*st, *err, file@),
{
    match err {
        ParseErrorInner::IO(m) => put_io(f, st, m),
        ParseErrorInner::NoLibSection { path, section } => put_no_section(f, st, path, section),
        ParseErrorInner::Syntax => {
            let ghost f0 = f@;
            put_styled(f, &st.typ, "ParserError".as_bytes());
            put_str(f, ": ");
            put_styled(f, &st.msg, "Syntax".as_bytes());
            assert(f@ =~= f0 + spec_kind_text(*st, ParseErrorInner::Syntax, file@));
        },
        ParseErrorInner::Unknown(sp) => put_unknown(f, st, *sp, file),
        ParseErrorInner::CircularDefinition(c, idx) => put_circular(f, st, c, *idx),
    }
}

impl ParseError {
    /// The report of this error, found in the file `path` whose text is
    /// `file`, in the styles `st`.
    pub fn report(&self, st: &Styles, path: &str, file: &str) -> (r: Vec<u8>)
        requires reportable(*self, file.spec_bytes()),
        ensures r@ == spec_report(*st, *self, path@, file.spec_bytes()),
    {
        let s = file.as_bytes();
        let mut f: Vec<u8> = Vec::new();
        put_str(&mut f, "\nFile ");
        put(&mut f, st.msg.prefix.as_slice());
        put_str(&mut f, "\"");
        put_str(&mut f, path);
        put_str(&mut f, "\"");
        put(&mut f, st.msg.suffix.as_slice());
        match self.pos {
            Some(p) => {
                put_str(&mut f, ", line ");
                put(&mut f, st.msg.prefix.as_slice());
                put_decimal(&mut f, p.line_num);
                put(&mut f, st.msg.suffix.as_slice());
                put_str(&mut f, "\n");
                let a = find_line_start(s, p.start);
                let b = find_line_end(s, p.start);
                let (x, _) = s.split_at(b);
                let (_, line) = x.split_at(a);
                assert(line@ =~= s@.subrange(a as int, b as int));
                put(&mut f, line);
                put_str(&mut f, "\n");
                let ghost g = f@;
                let mut k: usize = 0;
                while k < p.start - a
                    invariant
                        k <= p.start - a,
                        f@ == g + spaces(k as nat),
                    decreases p.start - a - k,
                {
                    f.push(0x20);
                    k = k + 1;
                    assert(f@ =~= g + spaces(k as nat));
                }
                put_styled(&mut f, &st.err, "<-".as_bytes());
            },
            None => {},
        }
        put_str(&mut f, "\n");
        put_kind(&mut f, st, &self.err, s);
        assert(f@ =~= spec_report(*st, *self, path@, file.spec_bytes()));
        f
    }
}

} // verus!
