//! What a chat message orders the bot to do.

use vstd::prelude::*;
use vstd::slice::slice_subrange;
use vstd::utf8::encode_utf8;

verus! {

/// Whether `needle` stands in `hay` at place `i`.
pub open spec fn occurs_at(hay: Seq<u8>, needle: Seq<u8>, i: int) -> bool {
    0 <= i && i + needle.len() <= hay.len() && hay.subrange(i, i + needle.len()) == needle
}

/// The first place at or after `from` where `needle` stands in `hay`.
pub open spec fn find_from(hay: Seq<u8>, needle: Seq<u8>, from: int) -> Option<int>
    decreases hay.len() - from + 1,
{
    if from < 0 || from + needle.len() > hay.len() {
        None
    } else if occurs_at(hay, needle, from) {
        Some(from)
    } else {
        find_from(hay, needle, from + 1)
    }
}

/// Whether `needle` stands somewhere in `hay`.
pub open spec fn contains(hay: Seq<u8>, needle: Seq<u8>) -> bool {
    find_from(hay, needle, 0) is Some
}

/// What stands in `hay` before the first `sep`, or all of `hay` where no
/// `sep` stands in it.
pub open spec fn first_field(hay: Seq<u8>, sep: Seq<u8>) -> Seq<u8> {
    match find_from(hay, sep, 0) {
        Some(i) => hay.take(i),
        None => hay,
    }
}

/// What stands in `hay` between the first `sep` and the next, or the end
/// where no other follows; `None` where no `sep` stands in `hay`.
pub open spec fn second_field(hay: Seq<u8>, sep: Seq<u8>) -> Option<Seq<u8>> {
    match find_from(hay, sep, 0) {
        None => None,
        Some(i) => {
            let start = i + sep.len();
            match find_from(hay, sep, start) {
                Some(j) => Some(hay.subrange(start, j)),
                None => Some(hay.skip(start)),
            }
        },
    }
}

/// The mark that leads what a player has said in a chat message: a
/// backslash and `u003e`, which is how the message spells `>`.
pub open spec fn said_mark() -> Seq<u8> {
    seq![0x5Cu8, 0x75u8, 0x30u8, 0x30u8, 0x33u8, 0x65u8]
}

/// The word that orders another held item.
pub open spec fn setslot_word() -> Seq<u8> {
    seq![0x73u8, 0x65u8, 0x74u8, 0x73u8, 0x6Cu8, 0x6Fu8, 0x74u8]
}

/// What is taken as said where a message has no mark: `> gay`.
pub open spec fn unmarked_saying() -> Seq<u8> {
    seq![0x3Eu8, 0x20u8, 0x67u8, 0x61u8, 0x79u8]
}

/// The slot that a `setslot` order asks for.
pub const ORDERED_SLOT: i16 = 5;

/// What a chat message orders: steps along `x` and `z`, a turn, and a
/// held item.
#[derive(Debug, Copy, Clone, PartialEq, Eq)]
pub struct ChatOrders {
    pub dx: i8,
    pub dz: i8,
    pub turn: bool,
    pub held_item: Option<i16>,
}

/// One step for a letter that is there, none for one that is not.
pub open spec fn step(hay: Seq<u8>, letter: u8) -> int {
    if contains(hay, seq![letter]) {
        1
    } else {
        0
    }
}

/// The orders in a message, given as its UTF-8 bytes.
///
/// A message without `!` moves the bot: what was said, which is what
/// stands between the first mark and the next, steps it forward for a `w`
/// and back for an `s` along `z`, one way for an `a` and the other for a
/// `d` along `x`, and the bot turns. A message with a `#` in which what
/// was said holds, before its first quotation mark, the word `setslot`
/// orders the held item.
pub open spec fn orders_in(text: Seq<u8>) -> ChatOrders {
    let said = second_field(text, said_mark());
    let moves = !contains(text, seq![0x21u8]);
    let saying = match said {
        Some(s) => s,
        None => unmarked_saying(),
    };
    let command = match said {
        Some(s) => first_field(s, seq![0x22u8]),
        None => Seq::empty(),
    };
    ChatOrders {
        dx: if moves {
            (step(saying, 0x61) - step(saying, 0x64)) as i8
        } else {
            0
        },
        dz: if moves {
            (step(saying, 0x77) - step(saying, 0x73)) as i8
        } else {
            0
        },
        turn: moves,
        held_item: if contains(text, seq![0x23u8]) && contains(command, setslot_word()) {
            Some(ORDERED_SLOT)
        } else {
            None
        },
    }
}

/// Whether `needle` stands in `hay` at place `i`.
fn stands_at(hay: &[u8], needle: &[u8], i: usize) -> (r: bool)
    requires
        i + needle@.len() <= hay@.len(),
    ensures
        r == occurs_at(hay@, needle@, i as int),
{
    let len = hay.len();
    let mut k: usize = 0;
    while k < needle.len()
        invariant
            k <= needle@.len(),
            i + needle@.len() <= hay@.len(),
            len == hay@.len(),
            forall|j: int| 0 <= j < k ==> hay@[i + j] == needle@[j],
        decreases needle.len() - k,
    {
        if hay[i + k] != needle[k] {
            assert(hay@.subrange(i as int, i + needle@.len())[k as int] != needle@[k as int]);
            return false;
        }
        k += 1;
    }
    assert(hay@.subrange(i as int, i + needle@.len()) =~= needle@);
    true
}

/// The first place at or after `from` where `needle` stands in `hay`.
pub fn find(hay: &[u8], needle: &[u8], from: usize) -> (r: Option<usize>)
    ensures
        match r {
            Some(i) => find_from(hay@, needle@, from as int) == Some(i as int) && from <= i && i
                + needle@.len() <= hay@.len(),
            None => find_from(hay@, needle@, from as int) is None,
        },
{
    if needle.len() > hay.len() {
        return None;
    }
    let last = hay.len() - needle.len();
    let mut i: usize = from;
    while i <= last
        invariant
            from <= i,
            last + needle@.len() == hay@.len(),
            find_from(hay@, needle@, from as int) == find_from(hay@, needle@, i as int),
        decreases last + 1 - i,
    {
        if stands_at(hay, needle, i) {
            return Some(i);
        }
        if i == last {
            return None;
        }
        i += 1;
    }
    None
}

/// The place of what stands in `hay` between the first `sep` and the
/// next: where it starts and where it ends.
pub fn second_field_of(hay: &[u8], sep: &[u8]) -> (r: Option<(usize, usize)>)
    ensures
        match r {
            Some((start, end)) => start <= end <= hay@.len() && second_field(hay@, sep@) == Some(
                hay@.subrange(start as int, end as int),
            ),
            None => second_field(hay@, sep@) is None,
        },
{
    let len = hay.len();
    match find(hay, sep, 0) {
        None => None,
        Some(i) => {
            let start = i + sep.len();
            match find(hay, sep, start) {
                Some(j) => Some((start, j)),
                None => {
                    assert(hay@.skip(start as int) =~= hay@.subrange(
                        start as int,
                        hay@.len() as int,
                    ));
                    Some((start, len))
                },
            }
        },
    }
}

/// One step for a letter that is there, none for one that is not.
fn step_for(hay: &[u8], letter: u8) -> (r: i8)
    ensures
        r == step(hay@, letter),
{
    let needle = [letter];
    assert(needle@ =~= seq![letter]);
    match find(hay, needle.as_slice(), 0) {
        Some(_) => 1,
        None => 0,
    }
}

/// The orders in a chat message.
pub fn chat_orders(message: &str) -> (r: ChatOrders)
    ensures
        r == orders_in(encode_utf8(message@)),
{
    let text = message.as_bytes();
    let mark: [u8; 6] = [0x5C, 0x75, 0x30, 0x30, 0x33, 0x65];
    let word: [u8; 7] = [0x73, 0x65, 0x74, 0x73, 0x6C, 0x6F, 0x74];
    let unmarked: [u8; 5] = [0x3E, 0x20, 0x67, 0x61, 0x79];
    let bang: [u8; 1] = [0x21];
    let hash: [u8; 1] = [0x23];
    let quote: [u8; 1] = [0x22];
    proof {
        assert(mark@ =~= said_mark());
        assert(word@ =~= setslot_word());
        assert(unmarked@ =~= unmarked_saying());
        assert(bang@ =~= seq![0x21u8]);
        assert(hash@ =~= seq![0x23u8]);
        assert(quote@ =~= seq![0x22u8]);
    }
    let said = second_field_of(text, mark.as_slice());
    let moves = find(text, bang.as_slice(), 0).is_none();
    let saying: &[u8] = match said {
        Some((start, end)) => slice_subrange(text, start, end),
        None => unmarked.as_slice(),
    };
    let (dx, dz) = if moves {
        (
            step_for(saying, 0x61) - step_for(saying, 0x64),
            step_for(saying, 0x77) - step_for(saying, 0x73),
        )
    } else {
        (0, 0)
    };
    let ordered = match said {
        Some((start, end)) => {
            let s = slice_subrange(text, start, end);
            let command = match find(s, quote.as_slice(), 0) {
                Some(i) => slice_subrange(s, 0, i),
                None => s,
            };
            assert(command@ =~= first_field(s@, seq![0x22u8]));
            find(command, word.as_slice(), 0).is_some()
        },
        None => {
            assert(find_from(Seq::<u8>::empty(), setslot_word(), 0) is None);
            false
        },
    };
    let held_item = if find(text, hash.as_slice(), 0).is_some() && ordered {
        Some(ORDERED_SLOT)
    } else {
        None
    };
    ChatOrders { dx, dz, turn: moves, held_item }
}

} // verus!
