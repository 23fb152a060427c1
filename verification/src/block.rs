//! Managed block markers and extraction.
//!
//! A managed file contains a delimited block whose contents are owned by the
//! tool. Everything outside the block belongs to the user. The block starts
//! with a line that is exactly `BLOCK_OPEN` and ends with a line that is
//! exactly `BLOCK_CLOSE`; lines are separated by `'\n'`.
//!
//! Positions in this module count characters (`char`s), not bytes.
use vstd::prelude::*;
use vstd::string::{StrSliceExecFns, StringExecFns};
use crate::text::chars_of;

verus! {

pub const BLOCK_OPEN: &'static str = "# >>> RhuffusIO Managed Block >>>";

pub const BLOCK_CLOSE: &'static str = "# <<< RhuffusIO Managed Block <<<";

/// The characters of the opening marker line.
pub open spec fn open_marker() -> Seq<char> {
    BLOCK_OPEN@
}

/// The characters of the closing marker line.
pub open spec fn close_marker() -> Seq<char> {
    BLOCK_CLOSE@
}

pub open spec fn newline() -> Seq<char> {
    seq!['\n']
}

/// A marker is a non-empty run of characters without a line break.
pub open spec fn is_marker(m: Seq<char>) -> bool {
    m.len() > 0 && forall|i: int| 0 <= i < m.len() ==> m[i] != '\n'
}

/// `t` holds, starting at `p`, a whole line whose text is exactly `m`.
pub open spec fn line_at(t: Seq<char>, p: int, m: Seq<char>) -> bool {
    &&& 0 <= p
    &&& p + m.len() <= t.len()
    &&& t.subrange(p, p + m.len()) == m
    &&& (p == 0 || t[p - 1] == '\n')
    &&& (p + m.len() == t.len() || t[p + m.len()] == '\n')
}

pub open spec fn has_line(t: Seq<char>, m: Seq<char>) -> bool {
    exists|p: int| line_at(t, p, m)
}

pub open spec fn no_lines(t: Seq<char>, m: Seq<char>) -> bool {
    forall|p: int| !line_at(t, p, m)
}

/// `t` holds two different lines whose text is `m`.
pub open spec fn duplicated(t: Seq<char>, m: Seq<char>) -> bool {
    exists|p: int, q: int| p != q && line_at(t, p, m) && line_at(t, q, m)
}

/// The text is empty or its last character ends a line.
pub open spec fn ends_line(t: Seq<char>) -> bool {
    t.len() == 0 || t.last() == '\n'
}

/// Facts about the two marker constants.
pub proof fn lemma_markers()
    ensures
        is_marker(open_marker()),
        is_marker(close_marker()),
        open_marker().len() == close_marker().len(),
        open_marker() != close_marker(),
{
    reveal_strlit("# >>> RhuffusIO Managed Block >>>");
    reveal_strlit("# <<< RhuffusIO Managed Block <<<");
    assert(open_marker()[2] != close_marker()[2]);
}

/// A marker line never runs across a line break: splitting a text after a
/// line break splits its marker lines too.
pub proof fn lemma_line_split(x: Seq<char>, y: Seq<char>, m: Seq<char>, p: int)
    requires
        is_marker(m),
        ends_line(x),
    ensures
        line_at(x + y, p, m) <==> (if p < x.len() {
            line_at(x, p, m)
        } else {
            line_at(y, p - x.len(), m)
        }),
{
    let u = x + y;
    if p < x.len() {
        if line_at(u, p, m) {
            if p + m.len() >= x.len() {
                let k = x.len() - 1 - p;
                assert(u.subrange(p, p + m.len())[k] == m[k]);
                assert(u[x.len() - 1] == '\n');
            }
            assert(u.subrange(p, p + m.len()) =~= x.subrange(p, p + m.len()));
        }
        if line_at(x, p, m) {
            if p + m.len() == x.len() {
                let k = x.len() - 1 - p;
                assert(x.subrange(p, p + m.len())[k] == m[k]);
            }
            assert(u.subrange(p, p + m.len()) =~= x.subrange(p, p + m.len()));
        }
    } else {
        let q = p - x.len();
        if p + m.len() <= u.len() {
            assert(u.subrange(p, p + m.len()) =~= y.subrange(q, q + m.len()));
        }
    }
}

/// Appending a line break after the last line leaves the marker lines as they were.
pub proof fn lemma_line_newline(x: Seq<char>, m: Seq<char>, p: int)
    requires
        is_marker(m),
    ensures
        line_at(x + newline(), p, m) <==> line_at(x, p, m),
{
    let u = x + newline();
    if line_at(u, p, m) {
        if p + m.len() == u.len() {
            let k = m.len() - 1;
            assert(u.subrange(p, p + m.len())[k] == m[k]);
        }
        assert(u.subrange(p, p + m.len()) =~= x.subrange(p, p + m.len()));
    }
    if line_at(x, p, m) {
        assert(u.subrange(p, p + m.len()) =~= x.subrange(p, p + m.len()));
    }
}

/// In a text as long as the marker, the only possible marker line is the whole text.
pub proof fn lemma_line_same_len(s: Seq<char>, m: Seq<char>, p: int)
    requires
        s.len() == m.len(),
    ensures
        line_at(s, p, m) <==> (p == 0 && s == m),
{
    assert(s.subrange(0, m.len() as int) =~= s);
}


/// Why a text does not hold a well-formed managed block.
#[derive(Debug, Clone, Copy, PartialEq, Eq, Structural)]
pub enum BlockError {
    /// More than one opening marker line.
    DuplicateOpen,
    /// More than one closing marker line.
    DuplicateClose,
    /// An opening marker line without a closing one.
    OrphanOpen,
    /// A closing marker line without an opening one.
    OrphanClose,
    /// The closing marker line comes before the opening one.
    CloseBeforeOpen,
    /// The content to be managed holds a marker line itself.
    MarkerInContent,
}

/// A managed block as positions and content.
pub struct BlockView {
    /// Position of the first character of the opening marker line.
    pub start: int,
    /// Position just past the closing marker line and its line break, if any.
    pub end: int,
    /// The text between the opening marker line and the line break that
    /// precedes the closing marker line.
    pub content: Seq<char>,
}

/// The block delimited by the opening marker line at `po` and the closing one at `pc`.
pub open spec fn block_at(t: Seq<char>, po: int, pc: int) -> BlockView {
    let body_start = po + open_marker().len() + 1;
    let close_end = pc + close_marker().len();
    BlockView {
        start: po,
        end: if close_end < t.len() {
            close_end + 1
        } else {
            close_end
        },
        content: if pc >= body_start + 1 {
            t.subrange(body_start, pc - 1)
        } else {
            Seq::empty()
        },
    }
}

/// What `find` gives for a text: its block, no block at all, or why the
/// markers are malformed.
pub open spec fn spec_find(t: Seq<char>) -> Result<Option<BlockView>, BlockError> {
    if duplicated(t, open_marker()) {
        Err(BlockError::DuplicateOpen)
    } else if duplicated(t, close_marker()) {
        Err(BlockError::DuplicateClose)
    } else if !has_line(t, open_marker()) {
        if has_line(t, close_marker()) {
            Err(BlockError::OrphanClose)
        } else {
            Ok(None)
        }
    } else if !has_line(t, close_marker()) {
        Err(BlockError::OrphanOpen)
    } else {
        let po = choose|p: int| line_at(t, p, open_marker());
        let pc = choose|p: int| line_at(t, p, close_marker());
        if pc < po {
            Err(BlockError::CloseBeforeOpen)
        } else {
            Ok(Some(block_at(t, po, pc)))
        }
    }
}

/// The managed block that holds `c`: the opening marker line, `c`, a line
/// break, and the closing marker line.
pub open spec fn render(c: Seq<char>) -> Seq<char> {
    open_marker() + newline() + c + newline() + close_marker() + newline()
}

/// What is put between a text without a block and the block appended to it:
/// nothing for an empty text, else enough line breaks to leave one blank line.
pub open spec fn separator(t: Seq<char>) -> Seq<char> {
    if t.len() == 0 {
        Seq::empty()
    } else if t.last() == '\n' {
        newline()
    } else {
        newline() + newline()
    }
}

pub open spec fn holds_marker_line(c: Seq<char>) -> bool {
    has_line(c, open_marker()) || has_line(c, close_marker())
}

/// What `upsert` gives: the block replaced in place, or appended when there is none.
pub open spec fn spec_upsert(t: Seq<char>, c: Seq<char>) -> Result<Seq<char>, BlockError> {
    match spec_find(t) {
        Err(e) => Err(e),
        Ok(found) => if holds_marker_line(c) {
            Err(BlockError::MarkerInContent)
        } else {
            match found {
                Some(b) => Ok(t.subrange(0, b.start) + render(c) + t.subrange(b.end, t.len() as int)),
                None => Ok(t + separator(t) + render(c)),
            }
        },
    }
}

/// What `remove` gives: the text without its block.
pub open spec fn spec_remove(t: Seq<char>) -> Result<Seq<char>, BlockError> {
    match spec_find(t) {
        Err(e) => Err(e),
        Ok(None) => Ok(t),
        Ok(Some(b)) => Ok(t.subrange(0, b.start) + t.subrange(b.end, t.len() as int)),
    }
}

/// The marker lines of `x + render(c) + z` are the two of the rendered block,
/// when `x`, `c` and `z` hold none.
proof fn lemma_rendered_lines(x: Seq<char>, c: Seq<char>, z: Seq<char>, m: Seq<char>, p: int)
    requires
        ends_line(x),
        m == open_marker() || m == close_marker(),
        no_lines(x, m),
        no_lines(c, m),
        no_lines(z, m),
    ensures
        line_at(x + render(c) + z, p, m) <==> ((m == open_marker() && p == x.len()) || (m
            == close_marker() && p == x.len() + open_marker().len() + c.len() + 2)),
{
    lemma_markers();
    let o = open_marker();
    let cl = close_marker();
    let a = x + (o + newline());
    let b = c + newline();
    let d = cl + newline();
    let u = x + render(c) + z;
    assert(u =~= a + (b + (d + z)));
    lemma_line_split(a, b + (d + z), m, p);
    lemma_line_split(x, o + newline(), m, p);
    lemma_line_newline(o, m, p - x.len());
    lemma_line_same_len(o, m, p - x.len());
    let q = p - a.len();
    lemma_line_split(b, d + z, m, q);
    lemma_line_newline(c, m, q);
    let r = q - b.len();
    lemma_line_split(d, z, m, r);
    lemma_line_newline(cl, m, r);
    lemma_line_same_len(cl, m, r);
}

/// `find` on a text made of `x`, a rendered block and `z` gives that block back.
proof fn lemma_find_rendered(x: Seq<char>, c: Seq<char>, z: Seq<char>)
    requires
        ends_line(x),
        no_lines(x, open_marker()),
        no_lines(x, close_marker()),
        !holds_marker_line(c),
        no_lines(z, open_marker()),
        no_lines(z, close_marker()),
    ensures
        spec_find(x + render(c) + z) == Ok::<Option<BlockView>, BlockError>(
            Some(BlockView { start: x.len() as int, end: (x.len() + render(c).len()) as int, content: c }),
        ),
{
    lemma_markers();
    let o = open_marker();
    let cl = close_marker();
    let u = x + render(c) + z;
    let po = x.len() as int;
    let pc = (x.len() + o.len() + c.len() + 2) as int;
    assert forall|p: int| line_at(u, p, o) <==> p == po by {
        lemma_rendered_lines(x, c, z, o, p);
    }
    assert forall|p: int| line_at(u, p, cl) <==> p == pc by {
        lemma_rendered_lines(x, c, z, cl, p);
    }
    assert(line_at(u, po, o));
    assert(line_at(u, pc, cl));
    assert(!duplicated(u, o));
    assert(!duplicated(u, cl));
    let b = block_at(u, po, pc);
    assert(u.subrange(po + o.len() + 1, pc - 1) =~= c);
    assert(b.content =~= c);
}


/// A text with no marker line, made to end a line, still holds none.
proof fn lemma_no_lines_separated(t: Seq<char>, m: Seq<char>)
    requires
        is_marker(m),
        no_lines(t, m),
    ensures
        no_lines(t + separator(t), m),
        ends_line(t + separator(t)),
{
    assert forall|p: int| !line_at(t + separator(t), p, m) by {
        if t.len() == 0 {
            assert(t + separator(t) =~= t);
        } else if t.last() == '\n' {
            lemma_line_newline(t, m, p);
        } else {
            assert(t + separator(t) =~= (t + newline()) + newline());
            lemma_line_newline(t + newline(), m, p);
            lemma_line_newline(t, m, p);
        }
    }
}

/// When `find` sees a block, the text before it and the text after it hold
/// no marker line, and the text before it ends a line.
proof fn lemma_outside_block(t: Seq<char>, m: Seq<char>)
    requires
        spec_find(t) is Ok,
        spec_find(t)->Ok_0 is Some,
        m == open_marker() || m == close_marker(),
    ensures
        ({
            let b = spec_find(t)->Ok_0->Some_0;
            &&& 0 <= b.start <= b.end <= t.len()
            &&& ends_line(t.subrange(0, b.start))
            &&& no_lines(t.subrange(0, b.start), m)
            &&& no_lines(t.subrange(b.end, t.len() as int), m)
        }),
{
    lemma_markers();
    let o = open_marker();
    let cl = close_marker();
    let po = choose|p: int| line_at(t, p, o);
    let pc = choose|p: int| line_at(t, p, cl);
    assert(line_at(t, po, o));
    assert(line_at(t, pc, cl));
    let b = block_at(t, po, pc);
    assert(spec_find(t) == Ok::<Option<BlockView>, BlockError>(Some(b)));
    // The opening marker line ends with a line break before the closing one starts.
    if pc <= po + o.len() {
        assert(t[pc - 1] == '\n');
        assert(t.subrange(po, po + o.len())[pc - 1 - po] == o[pc - 1 - po]);
    }
    let x = t.subrange(0, po);
    let z = t.subrange(b.end, t.len() as int);
    assert(t =~= x + t.subrange(po, t.len() as int));
    assert forall|p: int| !line_at(x, p, m) by {
        lemma_line_split(x, t.subrange(po, t.len() as int), m, p);
        if line_at(x, p, m) {
            assert(line_at(t, p, m));
            assert(!duplicated(t, m));
        }
    }
    if b.end < t.len() {
        let y = t.subrange(0, b.end);
        assert(t =~= y + z);
        assert forall|q: int| !line_at(z, q, m) by {
            lemma_line_split(y, z, m, q + y.len());
            if line_at(z, q, m) {
                assert(line_at(t, q + y.len(), m));
                assert(!duplicated(t, m));
            }
        }
    } else {
        assert forall|q: int| !line_at(z, q, m) by {}
    }
}

/// The text before the new block, and the text after it, in what `upsert` gives.
pub open spec fn upsert_parts(t: Seq<char>) -> (Seq<char>, Seq<char>) {
    match spec_find(t) {
        Ok(Some(b)) => (t.subrange(0, b.start), t.subrange(b.end, t.len() as int)),
        _ => (t + separator(t), Seq::empty()),
    }
}

proof fn lemma_upsert_shape(t: Seq<char>, c: Seq<char>)
    requires
        spec_upsert(t, c) is Ok,
    ensures
        ({
            let (x, z) = upsert_parts(t);
            &&& spec_upsert(t, c) == Ok::<Seq<char>, BlockError>(x + render(c) + z)
            &&& ends_line(x)
            &&& no_lines(x, open_marker()) && no_lines(x, close_marker())
            &&& no_lines(z, open_marker()) && no_lines(z, close_marker())
            &&& !holds_marker_line(c)
        }),
{
    lemma_markers();
    let (x, z) = upsert_parts(t);
    match spec_find(t) {
        Ok(Some(b)) => {
            lemma_outside_block(t, open_marker());
            lemma_outside_block(t, close_marker());
        },
        _ => {
            lemma_no_lines_separated(t, open_marker());
            lemma_no_lines_separated(t, close_marker());
            assert(x + render(c) + z =~= t + separator(t) + render(c));
        },
    }
}

/// Law: what `upsert` writes, `find` reads back. After a successful upsert of
/// `c`, the text holds exactly one block, its content is `c`, and it stands
/// right after the text that preceded the old block (or the old text).
pub proof fn lemma_find_after_upsert(t: Seq<char>, c: Seq<char>)
    requires
        spec_upsert(t, c) is Ok,
    ensures
        spec_find(spec_upsert(t, c)->Ok_0) == Ok::<Option<BlockView>, BlockError>(
            Some(
                BlockView {
                    start: upsert_parts(t).0.len() as int,
                    end: (upsert_parts(t).0.len() + render(c).len()) as int,
                    content: c,
                },
            ),
        ),
{
    lemma_upsert_shape(t, c);
    let (x, z) = upsert_parts(t);
    lemma_find_rendered(x, c, z);
}

/// Law: `upsert` is idempotent. Upserting the same content again changes nothing.
pub proof fn lemma_upsert_idempotent(t: Seq<char>, c: Seq<char>)
    requires
        spec_upsert(t, c) is Ok,
    ensures
        spec_upsert(spec_upsert(t, c)->Ok_0, c) == spec_upsert(t, c),
{
    lemma_upsert_shape(t, c);
    let (x, z) = upsert_parts(t);
    let u = x + render(c) + z;
    lemma_find_rendered(x, c, z);
    assert(u.subrange(0, x.len() as int) =~= x);
    assert(u.subrange((x.len() + render(c).len()) as int, u.len() as int) =~= z);
}

/// Law: `upsert` leaves the user's text alone. The text before the old block
/// and the text after it are kept as they were; a text without a block is kept
/// whole, at the start.
pub proof fn lemma_upsert_keeps_user_text(t: Seq<char>, c: Seq<char>)
    requires
        spec_upsert(t, c) is Ok,
    ensures
        ({
            let u = spec_upsert(t, c)->Ok_0;
            match spec_find(t) {
                Ok(Some(b)) => {
                    &&& u.subrange(0, b.start) == t.subrange(0, b.start)
                    &&& u.subrange(u.len() - (t.len() - b.end), u.len() as int) == t.subrange(
                        b.end,
                        t.len() as int,
                    )
                },
                _ => u.subrange(0, t.len() as int) == t,
            }
        }),
{
    lemma_upsert_shape(t, c);
    let (x, z) = upsert_parts(t);
    let u = x + render(c) + z;
    match spec_find(t) {
        Ok(Some(b)) => {
            lemma_outside_block(t, open_marker());
            assert(u.subrange(0, b.start) =~= t.subrange(0, b.start));
            assert(u.subrange(u.len() - (t.len() - b.end), u.len() as int) =~= z);
        },
        _ => {
            assert(u.subrange(0, t.len() as int) =~= t);
        },
    }
}

/// Law: after `remove`, `find` sees no block.
pub proof fn lemma_find_after_remove(t: Seq<char>)
    requires
        spec_remove(t) is Ok,
    ensures
        spec_find(spec_remove(t)->Ok_0) == Ok::<Option<BlockView>, BlockError>(None),
{
    lemma_markers();
    match spec_find(t) {
        Ok(Some(b)) => {
            lemma_outside_block(t, open_marker());
            lemma_outside_block(t, close_marker());
            let x = t.subrange(0, b.start);
            let z = t.subrange(b.end, t.len() as int);
            let r = x + z;
            assert forall|p: int| !line_at(r, p, open_marker()) by {
                lemma_line_split(x, z, open_marker(), p);
            }
            assert forall|p: int| !line_at(r, p, close_marker()) by {
                lemma_line_split(x, z, close_marker(), p);
            }
        },
        _ => {},
    }
}

/// Law: removing the block after an upsert gives what removing it before
/// would have given, when there was a block; when there was none, it gives
/// the old text followed by its separator.
pub proof fn lemma_remove_after_upsert(t: Seq<char>, c: Seq<char>)
    requires
        spec_upsert(t, c) is Ok,
    ensures
        spec_find(t) matches Ok(Some(_)) ==> spec_remove(spec_upsert(t, c)->Ok_0) == spec_remove(t),
        spec_find(t) matches Ok(None) ==> spec_remove(spec_upsert(t, c)->Ok_0) == Ok::<
            Seq<char>,
            BlockError,
        >(t + separator(t)),
{
    lemma_upsert_shape(t, c);
    let (x, z) = upsert_parts(t);
    let u = x + render(c) + z;
    lemma_find_rendered(x, c, z);
    assert(u.subrange(0, x.len() as int) =~= x);
    assert(u.subrange((x.len() + render(c).len()) as int, u.len() as int) =~= z);
    assert(x + Seq::<char>::empty() =~= x);
}


/// A managed block found in a text. Positions count characters.
pub struct Block {
    /// Position of the first character of the opening marker line.
    pub start: usize,
    /// Position just past the closing marker line and its line break, if any.
    pub end: usize,
    /// The managed content.
    pub content: String,
}

impl View for Block {
    type V = BlockView;

    open spec fn view(&self) -> BlockView {
        BlockView { start: self.start as int, end: self.end as int, content: self.content@ }
    }
}

/// How often a marker line occurs in a text.
enum Occurrence {
    Absent,
    Once(usize),
    Repeated,
}

/// Whether `t` holds, starting at `p`, a whole line whose text is `m`.
fn line_matches(t: &Vec<char>, p: usize, m: &Vec<char>) -> (r: bool)
    ensures
        r == line_at(t@, p as int, m@),
{
    let n = t.len();
    let k = m.len();
    if p > n || k > n - p {
        return false;
    }
    if p > 0 && t[p - 1] != '\n' {
        return false;
    }
    if p + k < n && t[p + k] != '\n' {
        return false;
    }
    let mut j: usize = 0;
    while j < k
        invariant
            j <= k,
            k == m@.len(),
            n == t@.len(),
            p + k <= n,
            forall|i: int| 0 <= i < j ==> t@[p + i] == m@[i],
        decreases k - j,
    {
        if t[p + j] != m[j] {
            assert(t@.subrange(p as int, p + k)[j as int] == t@[p + j]);
            return false;
        }
        j += 1;
    }
    assert(t@.subrange(p as int, p + k) =~= m@);
    true
}

/// Finds where the marker `m` occurs as a line of `t`.
fn locate(t: &Vec<char>, m: &Vec<char>) -> (r: Occurrence)
    requires
        is_marker(m@),
    ensures
        match r {
            Occurrence::Absent => no_lines(t@, m@),
            Occurrence::Once(p) => line_at(t@, p as int, m@) && forall|q: int|
                line_at(t@, q, m@) ==> q == p,
            Occurrence::Repeated => duplicated(t@, m@),
        },
{
    let n = t.len();
    let mut found = Occurrence::Absent;
    let mut i: usize = 0;
    while i < n
        invariant
            i <= n,
            n == t@.len(),
            is_marker(m@),
            match found {
                Occurrence::Absent => forall|q: int| q < i ==> !line_at(t@, q, m@),
                Occurrence::Once(p) => p < i && line_at(t@, p as int, m@) && forall|q: int|
                    q < i && line_at(t@, q, m@) ==> q == p,
                Occurrence::Repeated => duplicated(t@, m@),
            },
        decreases n - i,
    {
        if line_matches(t, i, m) {
            match found {
                Occurrence::Absent => {
                    found = Occurrence::Once(i);
                },
                Occurrence::Once(p) => {
                    assert(line_at(t@, p as int, m@) && line_at(t@, i as int, m@) && p != i);
                    found = Occurrence::Repeated;
                },
                Occurrence::Repeated => {},
            }
        }
        i += 1;
    }
    found
}

/// Finds the block of `text`, whose characters are `t`.
fn find_in(text: &str, t: &Vec<char>) -> (r: Result<Option<Block>, BlockError>)
    requires
        t@ == text@,
    ensures
        match r {
            Ok(Some(b)) => spec_find(text@) == Ok::<Option<BlockView>, BlockError>(Some(b@))
                && b.start <= b.end <= text@.len(),
            Ok(None) => spec_find(text@) == Ok::<Option<BlockView>, BlockError>(None),
            Err(e) => spec_find(text@) == Err::<Option<BlockView>, BlockError>(e),
        },
{
    proof {
        lemma_markers();
    }
    let o = chars_of(BLOCK_OPEN);
    let c = chars_of(BLOCK_CLOSE);
    let n = t.len();
    let lo = locate(t, &o);
    let lc = locate(t, &c);
    match lo {
        Occurrence::Repeated => Err(BlockError::DuplicateOpen),
        Occurrence::Absent => match lc {
            Occurrence::Repeated => Err(BlockError::DuplicateClose),
            Occurrence::Once(_) => Err(BlockError::OrphanClose),
            Occurrence::Absent => Ok(None),
        },
        Occurrence::Once(po) => match lc {
            Occurrence::Repeated => Err(BlockError::DuplicateClose),
            Occurrence::Absent => Err(BlockError::OrphanOpen),
            Occurrence::Once(pc) => {
                assert((choose|p: int| line_at(t@, p, o@)) == po);
                assert((choose|p: int| line_at(t@, p, c@)) == pc);
                if pc < po {
                    Err(BlockError::CloseBeforeOpen)
                } else {
                    proof {
                        lemma_outside_block(t@, open_marker());
                    }
                    let body_start = po + o.len() + 1;
                    let close_end = pc + c.len();
                    let end = if close_end < n {
                        close_end + 1
                    } else {
                        close_end
                    };
                    let content = if pc > body_start {
                        String::from_str(text.substring_char(body_start, pc - 1))
                    } else {
                        String::new()
                    };
                    let b = Block { start: po, end, content };
                    assert(b@ == block_at(t@, po as int, pc as int));
                    Ok(Some(b))
                }
            },
        },
    }
}

/// Finds the managed block of `text`.
///
/// Gives `Ok(None)` when the text holds no marker line at all, the block when
/// it holds exactly one opening and one closing marker line in that order,
/// and the error that names what is malformed otherwise.
pub fn find(text: &str) -> (r: Result<Option<Block>, BlockError>)
    ensures
        match r {
            Ok(Some(b)) => spec_find(text@) == Ok::<Option<BlockView>, BlockError>(Some(b@)),
            Ok(None) => spec_find(text@) == Ok::<Option<BlockView>, BlockError>(None),
            Err(e) => spec_find(text@) == Err::<Option<BlockView>, BlockError>(e),
        },
{
    let t = chars_of(text);
    find_in(text, &t)
}

/// Appends the rendered block that holds `content` to `out`.
fn push_rendered(out: &mut String, content: &str)
    ensures
        final(out)@ == old(out)@ + render(content@),
{
    proof {
        reveal_strlit("\n");
    }
    assert("\n"@ =~= newline());
    out.append(BLOCK_OPEN);
    out.append("\n");
    out.append(content);
    out.append("\n");
    out.append(BLOCK_CLOSE);
    out.append("\n");
    assert(final(out)@ =~= old(out)@ + render(content@));
}

/// Whether `c` holds a marker line.
fn has_marker_line(c: &Vec<char>) -> (r: bool)
    ensures
        r == holds_marker_line(c@),
{
    proof {
        lemma_markers();
    }
    let o = chars_of(BLOCK_OPEN);
    let cl = chars_of(BLOCK_CLOSE);
    let a = match locate(c, &o) {
        Occurrence::Absent => false,
        _ => true,
    };
    let b = match locate(c, &cl) {
        Occurrence::Absent => false,
        _ => true,
    };
    a || b
}

/// Writes `content` as the managed block of `text`: replaces the block in
/// place, or appends one after a blank line when there is none.
///
/// Fails when the text's markers are malformed, or when `content` itself holds
/// a marker line.
pub fn upsert(text: &str, content: &str) -> (r: Result<String, BlockError>)
    ensures
        match r {
            Ok(u) => spec_upsert(text@, content@) == Ok::<Seq<char>, BlockError>(u@),
            Err(e) => spec_upsert(text@, content@) == Err::<Seq<char>, BlockError>(e),
        },
{
    let t = chars_of(text);
    let n = t.len();
    let found = match find_in(text, &t) {
        Ok(found) => found,
        Err(e) => return Err(e),
    };
    let cc = chars_of(content);
    if has_marker_line(&cc) {
        return Err(BlockError::MarkerInContent);
    }
    proof {
        reveal_strlit("\n");
        reveal_strlit("\n\n");
    }
    let mut out = String::new();
    match found {
        Some(b) => {
            out.append(text.substring_char(0, b.start));
            push_rendered(&mut out, content);
            out.append(text.substring_char(b.end, n));
        },
        None => {
            out.append(text);
            if n > 0 {
                if t[n - 1] == '\n' {
                    out.append("\n");
                } else {
                    out.append("\n\n");
                }
            }
            assert(out@ =~= text@ + separator(text@));
            push_rendered(&mut out, content);
        },
    }
    Ok(out)
}

/// Removes the managed block from `text`, keeping everything else. A text
/// without a block is given back unchanged.
pub fn remove(text: &str) -> (r: Result<String, BlockError>)
    ensures
        match r {
            Ok(u) => spec_remove(text@) == Ok::<Seq<char>, BlockError>(u@),
            Err(e) => spec_remove(text@) == Err::<Seq<char>, BlockError>(e),
        },
{
    let t = chars_of(text);
    let n = t.len();
    match find_in(text, &t) {
        Err(e) => Err(e),
        Ok(None) => Ok(String::from_str(text)),
        Ok(Some(b)) => {
            let mut out = String::from_str(text.substring_char(0, b.start));
            out.append(text.substring_char(b.end, n));
            Ok(out)
        },
    }
}

} // verus!
