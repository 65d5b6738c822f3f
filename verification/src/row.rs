//! Menu rows: the stored form (fixed ASCII columns), the append cursor that
//! fills them, and the borrowed view the renderer takes.
use vstd::prelude::*;
use vstd::string::*;
use vstd::utf8::*;

use crate::text;

verus! {

/// How a row's value reads: secondary grey, or one of the status colours.
#[derive(Clone, Copy, PartialEq, Eq, Structural, Debug)]
pub enum Tone {
    Plain,
    Good,
    Warn,
    Bad,
}

/// The row label/value column widths in bytes, shared by the arena rows and
/// the detail pages' rows.
pub const ROW_LEFT_MAX: usize = 40;

pub const ROW_RIGHT_MAX: usize = 20;

/// One formatted menu row: ASCII label and value plus the value's tone.
/// Zero-length fields render as empty columns. `exp` marks a row a hold can
/// open a read-only detail page for (a PIV slot, a passkey relying party).
#[derive(Clone, Copy, Debug)]
pub struct RowBuf {
    pub left: [u8; ROW_LEFT_MAX],
    pub ll: u8,
    pub right: [u8; ROW_RIGHT_MAX],
    pub rl: u8,
    pub tone: Tone,
    pub exp: bool,
}

/// What a row says: its label and value bytes, tone, and whether it expands.
pub struct RowModel {
    pub left: Seq<u8>,
    pub right: Seq<u8>,
    pub tone: Tone,
    pub exp: bool,
}

/// The row that a label, a value, a tone and a mark make: both texts clamped
/// to their column, and the tone kept only beside a value.
pub open spec fn row_model(left: Seq<u8>, right: Seq<u8>, tone: Tone, exp: bool) -> RowModel {
    RowModel {
        left: text::fitted(left, ROW_LEFT_MAX as nat),
        right: text::fitted(right, ROW_RIGHT_MAX as nat),
        tone: if right.len() == 0 {
            Tone::Plain
        } else {
            tone
        },
        exp,
    }
}

/// A string is empty exactly when its bytes are.
pub proof fn lemma_empty_str(s: &str)
    ensures
        s@.len() == 0 <==> s.spec_bytes().len() == 0,
{
    reveal_with_fuel(encode_utf8, 2);
}

/// The empty text has no bytes.
pub proof fn lemma_no_text()
    ensures
        "".spec_bytes() == Seq::<u8>::empty(),
        ""@ == Seq::<char>::empty(),
{
    reveal_strlit("");
    lemma_empty_str("");
    assert("".spec_bytes() =~= Seq::empty());
    assert(""@ =~= Seq::empty());
}

impl RowBuf {
    /// The columns hold printable text, and only a row with a value is toned.
    pub open spec fn wf(&self) -> bool {
        &&& self.ll <= ROW_LEFT_MAX
        &&& self.rl <= ROW_RIGHT_MAX
        &&& text::all_printable(self.left@.take(self.ll as int))
        &&& text::all_printable(self.right@.take(self.rl as int))
        &&& self.rl == 0 ==> self.tone == Tone::Plain
    }

    pub open spec fn model(&self) -> RowModel {
        RowModel {
            left: self.left@.take(self.ll as int),
            right: self.right@.take(self.rl as int),
            tone: self.tone,
            exp: self.exp,
        }
    }

    /// A blank row.
    pub fn empty() -> (r: Self)
        ensures
            r.wf(),
            r.model() == row_model(Seq::empty(), Seq::empty(), Tone::Plain, false),
    {
        let r = RowBuf {
            left: [0u8;ROW_LEFT_MAX],
            ll: 0,
            right: [0u8;ROW_RIGHT_MAX],
            rl: 0,
            tone: Tone::Plain,
            exp: false,
        };
        assert(r.left@.take(0) =~= text::fitted(Seq::empty(), ROW_LEFT_MAX as nat));
        assert(r.right@.take(0) =~= text::fitted(Seq::empty(), ROW_RIGHT_MAX as nat));
        r
    }

    /// Fill the row; every field is reset, so rows can be reused.
    pub fn set(&mut self, left: &[u8], right: &str, tone: Tone, exp: bool)
        ensures
            final(self).wf(),
            final(self).model() == row_model(left@, right.spec_bytes(), tone, exp),
    {
        text::put_ascii(&mut self.left, &mut self.ll, left);
        self.exp = exp;
        self.rl = 0;
        self.tone = Tone::Plain;
        proof {
            lemma_empty_str(right);
        }
        if !right.is_empty() {
            text::put_ascii(&mut self.right, &mut self.rl, right.as_bytes());
            self.tone = tone;
        } else {
            assert(self.right@.take(0) =~= text::fitted(right.spec_bytes(), ROW_RIGHT_MAX as nat));
        }
    }
}

/// What a section with room for `cap` rows keeps of a list: its head.
pub open spec fn clipped(rows: Seq<RowModel>, cap: nat) -> Seq<RowModel> {
    if rows.len() <= cap {
        rows
    } else {
        rows.take(cap as int)
    }
}

/// What stored rows say, row by row.
pub open spec fn models(rows: Seq<RowBuf>) -> Seq<RowModel> {
    rows.map_values(|r: RowBuf| r.model())
}

/// Only rows `from` up to `to` of a slice may differ between two moments.
pub open spec fn kept_but(
    before: Seq<RowBuf>,
    after: Seq<RowBuf>,
    from: int,
    to: int,
) -> bool {
    forall|i: int| 0 <= i < before.len() && !(from <= i < to) ==> #[trigger] after[i] == before[i]
}

/// An append cursor over one section's arena slice. A row put past the end of
/// the slice is dropped: the caller sizes the slice to its worst case.
pub struct Cursor<'a> {
    pub rows: &'a mut [RowBuf],
    pub next: usize,
    /// Every row put so far, dropped ones too.
    pub log: Ghost<Seq<RowModel>>,
}

impl<'a> Cursor<'a> {
    /// The rows put so far stand at the head of the slice, in order.
    pub open spec fn wf(&self) -> bool {
        &&& self.next == clipped(self.log@, self.rows@.len()).len()
        &&& self.rows_wf()
    }

    /// How many rows the section has room for.
    pub open spec fn room(&self) -> nat {
        self.rows@.len()
    }

    /// The slice as it stands.
    pub open spec fn held(&self) -> Seq<RowBuf> {
        self.rows@
    }

    #[verifier::opaque]
    pub open spec fn rows_wf(&self) -> bool {
        &&& forall|i: int| 0 <= i < self.rows@.len() ==> (#[trigger] self.rows@[i]).wf()
        &&& models(self.rows@.take(self.next as int)) == clipped(self.log@, self.rows@.len())
    }

    /// A cursor at the start of `rows`.
    pub fn new(rows: &'a mut [RowBuf]) -> (r: Cursor<'a>)
        requires
            forall|i: int| 0 <= i < old(rows)@.len() ==> (#[trigger] old(rows)@[i]).wf(),
        ensures
            r.wf(),
            r.rows@ == old(rows)@,
            r.next == 0,
            r.log@ == Seq::<RowModel>::empty(),
            final(r.rows)@ == final(rows)@,
    {
        reveal(Cursor::rows_wf);
        assert(models(rows@.take(0)) =~= clipped(Seq::<RowModel>::empty(), rows@.len()));
        Cursor { rows, next: 0, log: Ghost(Seq::empty()) }
    }

    /// Done with the section: how many rows it holds.
    pub fn finish(self) -> (n: usize)
        requires
            self.wf(),
        ensures
            n == clipped(self.log@, self.room()).len(),
            final(self.rows)@ == self.held(),
            final(self.rows)@.len() == self.room(),
            forall|i: int|
                0 <= i < self.room() ==> (#[trigger] final(self.rows)@[i]).wf(),
            models(final(self.rows)@.take(n as int)) == clipped(self.log@, self.room()),
    {
        reveal(Cursor::rows_wf);
        self.next
    }

    /// Append a row; where the slice is full it is dropped. No other row of the
    /// slice is touched.
    pub fn push(&mut self, left: &[u8], right: &str, tone: Tone, exp: bool)
        requires
            old(self).wf(),
        ensures
            final(self).wf(),
            final(self).log@ == old(self).log@.push(
                row_model(left@, right.spec_bytes(), tone, exp),
            ),
            final(self).rows@.len() == old(self).rows@.len(),
            forall|i: int|
                0 <= i < old(self).rows@.len() && i != old(self).next ==>
                    #[trigger] final(self).rows@[i] == old(self).rows@[i],
            final(final(self).rows)@ == final(old(self).rows)@,
    {
        let ghost row = row_model(left@, right.spec_bytes(), tone, exp);
        let ghost before = self.rows@;
        let ghost log = self.log@;
        let ghost n = self.next;
        reveal(Cursor::rows_wf);
        proof {
            self.log@ = log.push(row);
        }
        if self.next >= self.rows.len() {
            assert(models(self.rows@.take(self.next as int)) =~= clipped(
                self.log@,
                self.rows@.len(),
            ));
            return ;
        }
        let slot = &mut self.rows[self.next];
        self.next += 1;
        slot.set(left, right, tone, exp);
        assert(models(before.take(n as int)) == log);
        assert(forall|i: int| 0 <= i < n ==> log[i] == #[trigger] before[i].model()) by {
            assert forall|i: int| 0 <= i < n implies log[i] == #[trigger] before[i].model() by {
                assert(models(before.take(n as int))[i] == before[i].model());
            }
        }
        assert(models(self.rows@.take(self.next as int)) =~= self.log@);
    }

    /// A row a hold opens nothing for.
    pub fn put(&mut self, left: &[u8], right: &str, tone: Tone)
        requires
            old(self).wf(),
        ensures
            final(self).wf(),
            final(self).log@ == old(self).log@.push(
                row_model(left@, right.spec_bytes(), tone, false),
            ),
            final(self).rows@.len() == old(self).rows@.len(),
            forall|i: int|
                0 <= i < old(self).rows@.len() && i != old(self).next ==>
                    #[trigger] final(self).rows@[i] == old(self).rows@[i],
            final(final(self).rows)@ == final(old(self).rows)@,
    {
        self.push(left, right, tone, false);
    }

    /// A row a hold opens a detail page for (see [`RowBuf::exp`]).
    pub fn put_exp(&mut self, left: &[u8], right: &str, tone: Tone)
        requires
            old(self).wf(),
        ensures
            final(self).wf(),
            final(self).log@ == old(self).log@.push(
                row_model(left@, right.spec_bytes(), tone, true),
            ),
            final(self).rows@.len() == old(self).rows@.len(),
            forall|i: int|
                0 <= i < old(self).rows@.len() && i != old(self).next ==>
                    #[trigger] final(self).rows@[i] == old(self).rows@[i],
            final(final(self).rows)@ == final(old(self).rows)@,
    {
        self.push(left, right, tone, true);
    }
}

/// One row as the renderer takes it: label, value, the value's tone, and
/// whether the row is the one under the cursor.
#[derive(Debug)]
pub struct KeysMenuRow {
    pub left: String,
    pub right: String,
    pub tone: Tone,
    pub emph: bool,
}

/// What a rendered row reads as.
pub struct RowFace {
    pub left: Seq<char>,
    pub right: Seq<char>,
    pub tone: Tone,
    pub emph: bool,
}

impl View for KeysMenuRow {
    type V = RowFace;

    open spec fn view(&self) -> RowFace {
        RowFace { left: self.left@, right: self.right@, tone: self.tone, emph: self.emph }
    }
}

/// A list of rendered rows, row by row.
pub open spec fn faces(rows: Seq<KeysMenuRow>) -> Seq<RowFace> {
    rows.map_values(|r: KeysMenuRow| r@)
}

/// A stored row as it is rendered off the cursor.
pub open spec fn face_of(m: RowModel) -> RowFace {
    RowFace {
        left: text::chars_of(m.left),
        right: text::chars_of(m.right),
        tone: m.tone,
        emph: false,
    }
}

/// A row says what it was given: texts that are printable and fit are held as
/// they are, the mark is kept, and the tone is kept exactly beside a value.
pub proof fn law_row_says_what_it_was_given(left: Seq<u8>, right: Seq<u8>, tone: Tone, exp: bool)
    ensures
        text::all_printable(left) && left.len() <= 40 ==> row_model(left, right, tone, exp).left
            == left,
        text::all_printable(right) && right.len() <= 20 ==> row_model(left, right, tone, exp).right
            == right,
        row_model(left, right, tone, exp).left.len() <= 40,
        row_model(left, right, tone, exp).right.len() <= 20,
        row_model(left, right, tone, exp).exp == exp,
        right.len() > 0 ==> row_model(left, right, tone, exp).tone == tone,
        right.len() == 0 ==> row_model(left, right, tone, exp).tone == Tone::Plain,
{
    text::law_field_text_is_printable(left, 40);
    text::law_field_text_is_printable(right, 20);
}

/// A stored row is rendered as it reads, byte for byte, in its own tone and off
/// the cursor.
pub proof fn law_row_is_rendered_as_stored(m: RowModel)
    requires
        text::all_printable(m.left),
        text::all_printable(m.right),
    ensures
        face_of(m).left.len() == m.left.len(),
        face_of(m).right.len() == m.right.len(),
        forall|i: int| 0 <= i < m.left.len() ==> #[trigger] face_of(m).left[i] as u8 == m.left[i],
        forall|i: int| 0 <= i < m.right.len() ==> #[trigger] face_of(m).right[i] as u8 == m.right[i],
        face_of(m).tone == m.tone,
        !face_of(m).emph,
{
}

/// A view of one stored row for the renderer.
pub fn row_view(row: &RowBuf) -> (r: KeysMenuRow)
    requires
        row.wf(),
    ensures
        r@ == face_of(row.model()),
{
    let ll: usize = row.ll as usize;
    let rl: usize = row.rl as usize;
    assert(row.left@.subrange(0, ll as int) =~= row.left@.take(ll as int));
    assert(row.right@.subrange(0, rl as int) =~= row.right@.take(rl as int));
    KeysMenuRow {
        left: text::str_ascii(&row.left[0..ll]).to_owned(),
        right: text::str_ascii(&row.right[0..rl]).to_owned(),
        tone: row.tone,
        emph: false,
    }
}

} // verus!
