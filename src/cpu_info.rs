//! Per-core clock frequencies from the processor information text: one block
//! per core, blocks separated by a blank line, the frequency on the block's
//! first `cpu MHz` line after its first colon.
use std::io::Error as IoError;
use std::sync::Arc;
use vstd::prelude::*;

use crate::sensors::CpuCore;
use crate::text::{
    chars_of, find, find_chars, first_where, lemma_first_where_none, lemma_first_where_some,
    occurs_here, split, split_chars, starts_with, string_of, sub_chars, trim, trim_chars,
};

verus! {

/// Why the frequencies could not be had.
#[derive(Clone, Debug)]
pub enum Error {
    /// The processor information file could not be read.
    CannotReadProcFile { source: Arc<IoError> },
}

/// The label that starts the frequency line of a block.
pub open spec fn mhz_label() -> Seq<char> {
    seq!['c', 'p', 'u', ' ', 'M', 'H', 'z']
}

/// The blocks of the text, one per core.
pub open spec fn blocks(text: Seq<char>) -> Seq<Seq<char>> {
    split(text, seq!['\n', '\n'])
}

/// The lines of a block.
pub open spec fn lines(block: Seq<char>) -> Seq<Seq<char>> {
    split(block, seq!['\n'])
}

/// The index of the first line that starts with the label.
pub open spec fn mhz_line(ls: Seq<Seq<char>>) -> Option<int> {
    first_where(ls.len() as int, |i: int| starts_with(ls[i], mhz_label()))
}

proof fn lemma_mhz_line_some(ls: Seq<Seq<char>>, k: int)
    requires
        0 <= k < ls.len(),
        starts_with(ls[k], mhz_label()),
        forall|j: int| 0 <= j < k ==> !starts_with(#[trigger] ls[j], mhz_label()),
    ensures
        mhz_line(ls) == Some(k),
{
    lemma_first_where_some(ls.len() as int, |i: int| starts_with(ls[i], mhz_label()), k);
}

proof fn lemma_mhz_line_none(ls: Seq<Seq<char>>)
    requires
        forall|j: int| 0 <= j < ls.len() ==> !starts_with(#[trigger] ls[j], mhz_label()),
    ensures
        mhz_line(ls) is None,
{
    lemma_first_where_none(ls.len() as int, |i: int| starts_with(ls[i], mhz_label()));
}

/// The frequency text of a block: on its first line that starts with the
/// label, what follows the first colon, trimmed; `None` where no line starts
/// with the label or that line has no colon.
pub open spec fn mhz_value(block: Seq<char>) -> Option<Seq<char>> {
    let ls = lines(block);
    match mhz_line(ls) {
        Some(k) => match find(ls[k], seq![':']) {
            Some(c) => Some(trim(ls[k].skip(c + 1))),
            None => None,
        },
        None => None,
    }
}

/// The frequency text of each block, in block order.
pub open spec fn mhz_fields(text: Seq<char>) -> Seq<Option<Seq<char>>> {
    blocks(text).map_values(|b: Seq<char>| mhz_value(b))
}

/// The frequencies that were read, in order; blocks whose text did not read
/// as a number (`None`) are left out.
pub open spec fn kept(parsed: Seq<Option<u64>>) -> Seq<u64> {
    parsed.filter_map(|o: Option<u64>| o)
}

/// The view of an optional string.
pub open spec fn opt_view(o: Option<String>) -> Option<Seq<char>> {
    match o {
        Some(s) => Some(s@),
        None => None,
    }
}

fn block_value(block: &Vec<char>) -> (r: Option<Vec<char>>)
    ensures
        match r {
            Some(v) => mhz_value(block@) == Some(v@),
            None => mhz_value(block@) is None,
        },
{
    let nl: Vec<char> = vec!['\n'];
    assert(nl@ =~= seq!['\n']);
    let ls = split_chars(block, &nl);
    let ghost sl = lines(block@);
    let label: Vec<char> = vec!['c', 'p', 'u', ' ', 'M', 'H', 'z'];
    assert(label@ =~= mhz_label());
    let mut k: usize = 0;
    while k < ls.len()
        invariant
            sl == lines(block@),
            sl.len() == ls@.len(),
            forall|i: int| 0 <= i < ls@.len() ==> #[trigger] ls@[i]@ == sl[i],
            label@ == mhz_label(),
            k <= ls@.len(),
            forall|j: int| 0 <= j < k ==> !starts_with(#[trigger] sl[j], mhz_label()),
        decreases ls@.len() - k,
    {
        if occurs_here(&ls[k], &label, 0) {
            proof {
                lemma_mhz_line_some(sl, k as int);
            }
            let line = &ls[k];
            let colon: Vec<char> = vec![':'];
            assert(colon@ =~= seq![':']);
            match find_chars(line, &colon) {
                Some(c) => {
                    let n: usize = line.len();
                    assert(c + 1 <= n);
                    let rest = sub_chars(line, c + 1, n);
                    assert(rest@ =~= line@.skip(c + 1));
                    assert(sl[k as int] == line@);
                    let t = trim_chars(&rest);
                    assert(mhz_value(block@) == Some(trim(sl[k as int].skip(c + 1))));
                    return Some(t);
                },
                None => {
                    assert(sl[k as int] == line@);
                    return None;
                },
            }
        }
        k += 1;
    }
    proof {
        lemma_mhz_line_none(sl);
    }
    None
}

/// The frequency text of each block of `text`, in block order: what
/// [`mhz_fields`] gives.
pub fn frequency_fields(text: &str) -> (r: Vec<Option<String>>)
    ensures
        r@.map_values(|o: Option<String>| opt_view(o)) == mhz_fields(text@),
{
    let cs = chars_of(text);
    let sep: Vec<char> = vec!['\n', '\n'];
    assert(sep@ =~= seq!['\n', '\n']);
    let bs = split_chars(&cs, &sep);
    let ghost want = mhz_fields(text@);
    let mut out: Vec<Option<String>> = Vec::new();
    let mut i: usize = 0;
    while i < bs.len()
        invariant
            bs@.len() == blocks(text@).len(),
            forall|j: int| 0 <= j < bs@.len() ==> #[trigger] bs@[j]@ == blocks(text@)[j],
            want == mhz_fields(text@),
            i <= bs@.len(),
            out@.len() == i,
            forall|j: int| 0 <= j < i ==> opt_view(#[trigger] out@[j]) == want[j],
        decreases bs@.len() - i,
    {
        assert(want[i as int] == mhz_value(bs@[i as int]@));
        let v = match block_value(&bs[i]) {
            Some(cs) => Some(string_of(cs.as_slice())),
            None => None,
        };
        assert(opt_view(v) == want[i as int]);
        out.push(v);
        i += 1;
    }
    assert(out@.map_values(|o: Option<String>| opt_view(o)) =~= want);
    out
}

/// The cores whose frequency was read, in block order: the readings of
/// `parsed` that are present, each as the bit pattern of its `f64` value.
pub fn cores_from_parsed(parsed: Vec<Option<u64>>) -> (r: Vec<CpuCore>)
    ensures
        r@.map_values(|c: CpuCore| c.freq) == kept(parsed@),
{
    let mut out: Vec<CpuCore> = Vec::new();
    let mut i: usize = 0;
    while i < parsed.len()
        invariant
            i <= parsed@.len(),
            out@.map_values(|c: CpuCore| c.freq) == parsed@.take(i as int).filter_map(
                |o: Option<u64>| o,
            ),
        decreases parsed@.len() - i,
    {
        proof {
            parsed@.lemma_filter_map_take_succ(|o: Option<u64>| o, i as int);
        }
        match parsed[i] {
            Some(freq) => {
                out.push(CpuCore { freq });
            },
            None => {},
        }
        assert(out@.map_values(|c: CpuCore| c.freq) =~= parsed@.take(i + 1).filter_map(
            |o: Option<u64>| o,
        ));
        i += 1;
    }
    assert(parsed@.take(i as int) =~= parsed@);
    out
}

/// The cores kept are the blocks whose frequency was read, in block order:
/// as many as there are such blocks, each with the value read there.
pub proof fn lemma_kept_count(parsed: Seq<Option<u64>>)
    ensures
        kept(parsed).len() == parsed.filter(|o: Option<u64>| o is Some).len(),
        kept(parsed) == parsed.filter(|o: Option<u64>| o is Some).map_values(
            |o: Option<u64>| o->0,
        ),
    decreases parsed.len(),
{
    reveal(Seq::filter);
    if parsed.len() > 0 {
        lemma_kept_count(parsed.drop_last());
        let f = parsed.drop_last().filter(|o: Option<u64>| o is Some);
        if parsed.last() is Some {
            assert(f.push(parsed.last()).map_values(|o: Option<u64>| o->0) =~= f.map_values(
                |o: Option<u64>| o->0,
            ).push(parsed.last()->0));
        }
    }
}

/// A text in which no block's frequency was read gives no cores.
pub proof fn lemma_none_read(parsed: Seq<Option<u64>>)
    requires
        forall|i: int| 0 <= i < parsed.len() ==> (#[trigger] parsed[i]) is None,
    ensures
        kept(parsed).len() == 0,
    decreases parsed.len(),
{
    if parsed.len() > 0 {
        assert forall|i: int| 0 <= i < parsed.drop_last().len() implies (
        #[trigger] parsed.drop_last()[i]) is None by {
            assert(parsed[i] is None);
        }
        lemma_none_read(parsed.drop_last());
    }
}

} // verus!
