//! Printable runs of a byte stream, in the manner of the `strings` utility.
use vstd::prelude::*;

use crate::source::{rest, ByteSource};

verus! {

/// Relies on String::push: it appends the character to the string.
pub assume_specification[ String::push ](string: &mut String, ch: char)
    ensures
        final(string)@ == old(string)@.push(ch),
;

/// Whether `b` is printable ASCII: from space to tilde.
pub open spec fn printable(b: u8) -> bool {
    0x20 <= b <= 0x7e
}

/// The run `run` as a stanza: kept when it is at least four bytes long.
pub open spec fn kept(run: Seq<u8>) -> Seq<Seq<u8>> {
    if run.len() >= 4 {
        seq![run]
    } else {
        seq![]
    }
}

/// The stanzas of `s` when the printable bytes `pending` stand right before
/// it: each maximal run of printable bytes, in order, that is at least four
/// bytes long.
pub open spec fn stanzas_after(pending: Seq<u8>, s: Seq<u8>) -> Seq<Seq<u8>>
    decreases s.len(),
{
    if s.len() == 0 {
        kept(pending)
    } else if printable(s[0]) {
        stanzas_after(pending.push(s[0]), s.drop_first())
    } else {
        kept(pending) + stanzas_after(seq![], s.drop_first())
    }
}

/// The stanzas of `s`: its maximal runs of printable bytes that are at least
/// four bytes long, in order.
pub open spec fn stanzas(s: Seq<u8>) -> Seq<Seq<u8>> {
    stanzas_after(seq![], s)
}

/// How many bytes of `s` a read of the next stanza consumes when `held`
/// printable bytes stand right before it: through the byte that ends the
/// first run of at least four printable bytes, or all of `s` where no such
/// run ends in it.
pub open spec fn span_after(held: nat, s: Seq<u8>) -> nat
    decreases s.len(),
{
    if s.len() == 0 {
        0
    } else if printable(s[0]) {
        1 + span_after(held + 1, s.drop_first())
    } else if held >= 4 {
        1
    } else {
        1 + span_after(0, s.drop_first())
    }
}

/// ASCII bytes as the characters they encode.
pub open spec fn ascii_text(bytes: Seq<u8>) -> Seq<char> {
    bytes.map_values(|b: u8| b as char)
}

/// Characters or bytes that may be printable.
pub trait IsPrintable {
    /// Is this character printable?
    fn is_printable(&self) -> bool;
}

impl IsPrintable for u8 {
    fn is_printable(&self) -> (r: bool)
        ensures
            r == printable(*self),
    {
        0x20 <= *self && *self <= 0x7e
    }
}

/// The first printable bytes of a run, held back until there are four of
/// them.
#[derive(Clone, Copy)]
pub struct Trailing {
    chars: [u8; 4],
    current: usize,
}

impl View for Trailing {
    type V = Seq<u8>;

    closed spec fn view(&self) -> Seq<u8> {
        self.chars@.subrange(0, self.current as int)
    }
}

impl Trailing {
    /// At most four bytes are held.
    pub closed spec fn wf(&self) -> bool {
        self.current <= 4
    }

    /// All four slots, held or not.
    pub closed spec fn slots(&self) -> Seq<u8> {
        self.chars@
    }

    /// Holds no byte; the four slots are zero.
    pub fn new() -> (r: Trailing)
        ensures
            r.wf(),
            r@ == Seq::<u8>::empty(),
            r.slots() == seq![0u8, 0u8, 0u8, 0u8],
    {
        let r = Trailing { chars: [0;4], current: 0 };
        assert(r.slots() =~= seq![0u8, 0u8, 0u8, 0u8]);
        r
    }

    /// Holds `b` after the bytes already held; says whether four are held now.
    pub fn set(&mut self, b: u8) -> (r: bool)
        requires
            old(self).wf(),
            old(self)@.len() < 4,
        ensures
            final(self).wf(),
            final(self)@ == old(self)@.push(b),
            final(self).slots() == old(self).slots().update(old(self)@.len() as int, b),
            r == (final(self)@.len() == 4),
    {
        self.chars[self.current] = b;
        self.current += 1;
        assert(self@ =~= old(self)@.push(b));
        self.is_complete()
    }

    /// Drops the bytes held; the slots keep their values.
    pub fn reset(&mut self)
        requires
            old(self).wf(),
        ensures
            final(self).wf(),
            final(self)@ == Seq::<u8>::empty(),
            final(self).slots() == old(self).slots(),
    {
        self.current = 0;
        assert(self@ =~= Seq::<u8>::empty());
    }

    /// Whether four bytes are held.
    pub fn is_complete(self) -> (r: bool)
        requires
            self.wf(),
        ensures
            r == (self@.len() == 4),
    {
        self.current == 4
    }

    /// The four slots; the bytes held are at the start.
    pub fn chars(self) -> (r: [u8; 4])
        requires
            self.wf(),
        ensures
            r@ == self.slots(),
            r@.subrange(0, self@.len() as int) == self@,
            self@.len() == 4 ==> r@ == self@,
    {
        assert(self.chars@.subrange(0, 4) =~= self.chars@);
        self.chars
    }
}

/// The stanzas of a byte stream, read one at a time.
pub struct Strings {
    src: ByteSource,
}

/// Turns a byte stream into its stanzas.
pub trait IntoStringsIter {
    /// The stanzas of this stream, from its cursor on.
    fn into_strings_iter(self) -> Strings;
}

impl IntoStringsIter for ByteSource {
    fn into_strings_iter(self) -> (r: Strings)
        ensures
            r.source() == self,
    {
        Strings { src: self }
    }
}

impl Strings {
    /// The stream that the stanzas are read from.
    pub closed spec fn source(&self) -> ByteSource {
        self.src
    }

    /// The bytes not read yet.
    pub open spec fn remaining(&self) -> Seq<u8> {
        rest(self.source().content(), self.source().cursor() as int)
    }

    /// The next stanza: the first maximal run of at least four printable
    /// bytes in what remains. Shorter runs are skipped whole; the byte that
    /// ends a stanza is consumed with it, and nothing after it.
    pub fn next(&mut self) -> (r: Option<String>)
        ensures
            final(self).source().content() == old(self).source().content(),
            final(self).source().cursor() == old(self).source().cursor() + span_after(
                0,
                old(self).remaining(),
            ),
            r is None <==> stanzas(old(self).remaining()).len() == 0,
            r is None ==> final(self).remaining().len() == 0,
            r matches Some(s) ==> s@ == ascii_text(stanzas(old(self).remaining())[0])
                && stanzas(final(self).remaining()) == stanzas(old(self).remaining()).drop_first()
                && final(self).remaining().len() < old(self).remaining().len(),
    {
        let mut stanza = String::new();
        let mut trailing = Trailing::new();
        let ghost start = self.remaining();
        let ghost mut pending: Seq<u8> = seq![];
        loop
            invariant
                start == old(self).remaining(),
                self.src.content() == old(self).src.content(),
                old(self).src.cursor() + span_after(0, start) == self.src.cursor() + span_after(
                    pending.len(),
                    self.remaining(),
                ),
                trailing.wf(),
                stanzas(start) == stanzas_after(pending, self.remaining()),
                self.remaining().len() + pending.len() <= start.len(),
                trailing@.len() == 4 ==> stanza@ == ascii_text(pending) && pending.len() >= 4,
                trailing@.len() < 4 ==> trailing@ == pending && stanza@.len() == 0,
            decreases self.remaining().len(),
        {
            let ghost before = self.src;
            proof {
                if before.cursor() < before.content().len() {
                    lemma_rest_step(before.content(), before.cursor() as int);
                }
            }
            match self.src.read_u8() {
                None => {
                    if trailing.is_complete() {
                        return Some(stanza);
                    }
                    return None;
                },
                Some(byte) => {
                    if byte.is_printable() {
                        proof {
                            pending = pending.push(byte);
                        }
                        if trailing.is_complete() {
                            stanza.push(byte as char);
                            assert(stanza@ =~= ascii_text(pending));
                        } else if trailing.set(byte) {
                            let held = trailing.chars();
                            let mut k: usize = 0;
                            while k < 4
                                invariant
                                    k <= 4,
                                    held@ == pending,
                                    stanza@ == ascii_text(pending.subrange(0, k as int)),
                                decreases 4 - k,
                            {
                                stanza.push(held[k] as char);
                                k += 1;
                                assert(stanza@ =~= ascii_text(pending.subrange(0, k as int)));
                            }
                            assert(pending.subrange(0, 4) =~= pending);
                        }
                    } else {
                        if trailing.is_complete() {
                            return Some(stanza);
                        }
                        trailing.reset();
                        proof {
                            pending = seq![];
                        }
                    }
                },
            }
        }
    }
}

/// Whether every byte of `s` is printable.
pub open spec fn all_printable(s: Seq<u8>) -> bool {
    forall|i: int| 0 <= i < s.len() ==> printable(#[trigger] s[i])
}

/// Printable bytes extend the run that stands before them.
proof fn lemma_run_extends(pending: Seq<u8>, run: Seq<u8>, s: Seq<u8>)
    requires
        all_printable(run),
    ensures
        stanzas_after(pending, run + s) == stanzas_after(pending + run, s),
    decreases run.len(),
{
    if run.len() == 0 {
        assert(run + s =~= s);
        assert(pending + run =~= pending);
    } else {
        assert((run + s)[0] == run[0]);
        assert((run + s).drop_first() =~= run.drop_first() + s);
        lemma_run_extends(pending.push(run[0]), run.drop_first(), s);
        assert(pending.push(run[0]) + run.drop_first() =~= pending + run);
    }
}

/// A stream of printable bytes alone is one run: one stanza if it is at
/// least four bytes long, none if it is shorter.
pub proof fn lemma_single_run(run: Seq<u8>)
    requires
        all_printable(run),
    ensures
        stanzas(run) == kept(run),
        run.len() >= 4 ==> stanzas(run) == seq![run],
        run.len() < 4 ==> stanzas(run).len() == 0,
{
    lemma_run_extends(seq![], run, seq![]);
    assert(run + Seq::<u8>::empty() =~= run);
    assert(Seq::<u8>::empty() + run =~= run);
}

/// A run of printable bytes ended by a byte that is not printable is a
/// stanza of its own if it is at least four bytes long, and is dropped whole
/// if it is shorter; the bytes after the end split on their own.
pub proof fn lemma_run_then_separator(run: Seq<u8>, end: u8, tail: Seq<u8>)
    requires
        all_printable(run),
        !printable(end),
    ensures
        stanzas(run.push(end) + tail) == kept(run) + stanzas(tail),
        run.len() >= 4 ==> stanzas(run.push(end) + tail) == seq![run] + stanzas(tail),
        run.len() < 4 ==> stanzas(run.push(end) + tail) == stanzas(tail),
{
    let after = seq![end] + tail;
    assert(run.push(end) + tail =~= run + after);
    lemma_run_extends(seq![], run, after);
    assert(Seq::<u8>::empty() + run =~= run);
    assert(after.drop_first() =~= tail);
    assert(kept(run).len() == 0 ==> kept(run) + stanzas(tail) =~= stanzas(tail));
}

/// One byte read at `at` leaves the rest after it.
proof fn lemma_rest_step(s: Seq<u8>, at: int)
    requires
        0 <= at < s.len(),
    ensures
        rest(s, at).len() > 0,
        rest(s, at)[0] == s[at],
        rest(s, at + 1) == rest(s, at).drop_first(),
{
    assert(rest(s, at + 1) =~= rest(s, at).drop_first());
}

} // verus!
