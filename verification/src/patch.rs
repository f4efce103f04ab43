//! Patching the chromedriver binary: the names that give it away are overwritten.

use vstd::prelude::*;

use crate::chance::random_between;

verus! {

/// How many letters the overwriting draws from.
pub const LETTERS: usize = 52;

/// How many bytes are overwritten behind a marker.
pub const NAME_LENGTH: usize = 18;

/// The letters, small ones first.
pub open spec fn letter(n: nat) -> u8 {
    if n < 26 {
        (97 + n) as u8
    } else {
        (65 + n - 26) as u8
    }
}

/// A small or a capital letter.
pub open spec fn is_letter(b: u8) -> bool {
    97 <= b <= 122 || 65 <= b <= 90
}

/// The bytes `cdc_` stand at a place.
pub open spec fn marked(content: Seq<u8>, at: int) -> bool {
    &&& 0 <= at
    &&& at + 4 <= content.len()
    &&& content[at] == 99
    &&& content[at + 1] == 100
    &&& content[at + 2] == 99
    &&& content[at + 3] == 95
}

/// How many markers there are before a place.
pub open spec fn markers_before(content: Seq<u8>, at: nat) -> nat
    decreases at,
{
    if at == 0 {
        0
    } else if marked(content, at - 1) {
        markers_before(content, (at - 1) as nat) + 1
    } else {
        markers_before(content, (at - 1) as nat)
    }
}

/// The bytes behind a marker that are overwritten hold the place `j`.
pub open spec fn covers(at: int, j: int) -> bool {
    at + 4 <= j < at + 4 + NAME_LENGTH
}

/// The last marker before `end` behind which the place `j` is overwritten.
pub open spec fn last_cover(content: Seq<u8>, j: int, end: nat) -> Option<nat>
    decreases end,
{
    if end == 0 {
        None
    } else if marked(content, end - 1) && covers(end - 1, j) {
        Some((end - 1) as nat)
    } else {
        last_cover(content, j, (end - 1) as nat)
    }
}

/// The byte at a place after the markers before `end` were handled: where several of them reach
/// the place, the last one decides. `draws` holds the number of a letter for every byte that is
/// overwritten, marker by marker.
pub open spec fn patched_byte(content: Seq<u8>, draws: Seq<usize>, j: int, end: nat) -> u8 {
    match last_cover(content, j, end) {
        Some(at) => letter(
            draws[(markers_before(content, at) * NAME_LENGTH + (j - at - 4)) as int] as nat,
        ),
        None => content[j],
    }
}

/// The binary with the bytes behind every marker overwritten.
pub open spec fn patched(content: Seq<u8>, draws: Seq<usize>) -> Seq<u8> {
    Seq::new(content.len(), |j: int| patched_byte(content, draws, j, content.len()))
}

/// Behind every marker there is room for the bytes that are overwritten.
pub open spec fn has_room(content: Seq<u8>) -> bool {
    forall|at: int| #[trigger] marked(content, at) ==> at + 4 + NAME_LENGTH <= content.len()
}

/// There is a letter for every byte that is overwritten.
pub open spec fn enough(content: Seq<u8>, draws: Seq<usize>) -> bool {
    &&& draws.len() == markers_before(content, content.len()) * NAME_LENGTH
    &&& forall|i: int| 0 <= i < draws.len() ==> #[trigger] draws[i] < LETTERS
}

/// Whether the bytes `cdc_` stand at a place.
fn is_marked(content: &Vec<u8>, at: usize) -> (r: bool)
    requires
        at < content.len(),
    ensures
        r == marked(content@, at as int),
{
    let left: usize = content.len() - at;
    left >= 4 && content[at] == 99 && content[at + 1] == 100 && content[at + 2] == 99
        && content[at + 3] == 95
}

/// Whether every marker has room behind it.
pub fn patchable(content: &Vec<u8>) -> (r: bool)
    ensures
        r == has_room(content@),
{
    let total: usize = content.len();
    let mut at: usize = 0;
    while at < total
        invariant
            at <= total == content@.len(),
            forall|i: int|
                0 <= i < at && #[trigger] marked(content@, i) ==> i + 4 + NAME_LENGTH
                    <= content@.len(),
        decreases total - at,
    {
        if is_marked(content, at) && total - at < 4 + NAME_LENGTH {
            assert(marked(content@, at as int));
            return false;
        }
        at = at + 1;
    }
    true
}

/// The letter with a number.
fn letter_byte(n: usize) -> (r: u8)
    requires
        n < LETTERS,
    ensures
        r == letter(n as nat),
{
    if n < 26 {
        97u8 + n as u8
    } else {
        65u8 + (n - 26) as u8
    }
}

/// Overwrite the bytes behind every marker with the letters drawn, and count the markers.
pub fn patch_with(content: &Vec<u8>, draws: &Vec<usize>) -> (r: (Vec<u8>, usize))
    requires
        has_room(content@),
        enough(content@, draws@),
    ensures
        r.0@ == patched(content@, draws@),
        r.1 == markers_before(content@, content@.len()),
{
    let total: usize = content.len();
    let mut out: Vec<u8> = Vec::new();
    let mut i: usize = 0;
    while i < total
        invariant
            i <= total == content@.len(),
            out@ == content@.take(i as int),
        decreases total - i,
    {
        out.push(content[i]);
        i = i + 1;
        assert(content@.take(i as int) =~= content@.take(i - 1).push(content@[i - 1]));
    }
    let mut at: usize = 0;
    let mut count: usize = 0;
    let mut used: usize = 0;
    while at < total
        invariant
            at <= total == content@.len(),
            has_room(content@),
            enough(content@, draws@),
            out@.len() == total,
            count <= at,
            count == markers_before(content@, at as nat),
            used == count * NAME_LENGTH,
            forall|j: int|
                0 <= j < total ==> #[trigger] out@[j] == patched_byte(
                    content@,
                    draws@,
                    j,
                    at as nat,
                ),
        decreases total - at,
    {
        if is_marked(content, at) {
            proof {
                lemma_markers_monotone(content@, (at + 1) as nat, content@.len());
                assert(marked(content@, at as int));
                assert(at + 4 + NAME_LENGTH <= total);
                assert(used + NAME_LENGTH <= draws@.len()) by (nonlinear_arith)
                    requires
                        used == count * NAME_LENGTH,
                        count + 1 <= markers_before(content@, content@.len()),
                        draws@.len() == markers_before(content@, content@.len()) * NAME_LENGTH,
                        NAME_LENGTH == 18,
                ;
            }
            let limit: usize = draws.len();
            let mut t: usize = 0;
            while t < NAME_LENGTH
                invariant
                    t <= NAME_LENGTH,
                    at + 4 + NAME_LENGTH <= total == content@.len(),
                    enough(content@, draws@),
                    marked(content@, at as int),
                    out@.len() == total,
                    limit == draws@.len(),
                    used + NAME_LENGTH <= limit,
                    used == count * NAME_LENGTH,
                    count == markers_before(content@, at as nat),
                    forall|j: int|
                        0 <= j < total && !(at + 4 <= j < at + 4 + t) ==> #[trigger] out@[j]
                            == patched_byte(content@, draws@, j, at as nat),
                    forall|j: int|
                        at + 4 <= j < at + 4 + t ==> #[trigger] out@[j] == letter(
                            draws@[used + (j - at - 4)] as nat,
                        ),
                decreases NAME_LENGTH - t,
            {
                let b: u8 = letter_byte(draws[used + t]);
                out.set(at + 4 + t, b);
                t = t + 1;
            }
            proof {
                assert forall|j: int| 0 <= j < total implies #[trigger] out@[j] == patched_byte(
                    content@,
                    draws@,
                    j,
                    (at + 1) as nat,
                ) by {
                    if covers(at as int, j) {
                        assert(last_cover(content@, j, (at + 1) as nat) == Some(at as nat));
                    } else {
                        assert(last_cover(content@, j, (at + 1) as nat) == last_cover(
                            content@,
                            j,
                            at as nat,
                        ));
                    }
                }
            }
            count = count + 1;
            used = used + NAME_LENGTH;
        } else {
            assert forall|j: int| 0 <= j < total implies #[trigger] out@[j] == patched_byte(
                content@,
                draws@,
                j,
                (at + 1) as nat,
            ) by {
                assert(last_cover(content@, j, (at + 1) as nat) == last_cover(
                    content@,
                    j,
                    at as nat,
                ));
            }
        }
        at = at + 1;
    }
    assert(out@ =~= patched(content@, draws@));
    (out, count)
}

proof fn lemma_markers_monotone(content: Seq<u8>, from: nat, to: nat)
    requires
        from <= to,
    ensures
        markers_before(content, from) <= markers_before(content, to),
    decreases to,
{
    if from < to {
        lemma_markers_monotone(content, from, (to - 1) as nat);
    }
}

/// Replace the names behind the `cdc_` markers of the binary with random letters; the number of
/// markers comes with the new binary. Chance decides which letters they are, and nothing else.
pub fn patch_chromedriver(content: &Vec<u8>) -> (r: (Vec<u8>, usize))
    requires
        has_room(content@),
    ensures
        exists|draws: Seq<usize>|
            enough(content@, draws) && r.0@ == #[trigger] patched(content@, draws),
        r.1 == markers_before(content@, content@.len()),
        r.1 == Seq::new(content@.len(), |i: int| i).filter(
            |i: int|
                i + 4 <= content@.len() && content@.subrange(i, i + 4) == seq![99u8, 100, 99, 95],
        ).len(),
        r.0@.len() == content@.len(),
        forall|at: int, j: int|
            #![trigger content@.subrange(at, at + 4), r.0@[j]]
            0 <= at && at + 22 <= content@.len() && content@.subrange(at, at + 4) == seq![
                99u8,
                100,
                99,
                95,
            ] && at + 4 <= j < at + 22 ==> 97 <= r.0@[j] <= 122 || 65 <= r.0@[j] <= 90,
        forall|j: int|
            0 <= j < content@.len() && (forall|at: int|
                0 <= at && at + 4 <= content@.len() && #[trigger] content@.subrange(at, at + 4)
                    == seq![99u8, 100, 99, 95] ==> !(at + 4 <= j < at + 22)) ==> #[trigger] r.0@[j]
                == content@[j],
{
    let total: usize = content.len();
    let mut draws: Vec<usize> = Vec::new();
    let mut at: usize = 0;
    while at < total
        invariant
            at <= total == content@.len(),
            draws@.len() == markers_before(content@, at as nat) * NAME_LENGTH,
            forall|i: int| 0 <= i < draws@.len() ==> #[trigger] draws@[i] < LETTERS,
        decreases total - at,
    {
        if is_marked(content, at) {
            let mut t: usize = 0;
            let ghost before = draws@.len();
            while t < NAME_LENGTH
                invariant
                    t <= NAME_LENGTH,
                    draws@.len() == before + t,
                    forall|i: int| 0 <= i < draws@.len() ==> #[trigger] draws@[i] < LETTERS,
                decreases NAME_LENGTH - t,
            {
                draws.push(random_between(0, LETTERS));
                t = t + 1;
            }
        }
        at = at + 1;
    }
    let r = patch_with(content, &draws);
    assert(enough(content@, draws@) && r.0@ == patched(content@, draws@));
    proof {
        law_patch_by_bytes(content@, draws@);
    }
    r
}

// ─── Laws of patching ────────────────────────────────────────────────────────

/// Law: a patched binary is as long as it was; the bytes behind every marker are letters, and
/// all others are what they were.
pub proof fn law_patch_overwrites_names_only(content: Seq<u8>, draws: Seq<usize>)
    requires
        has_room(content),
        enough(content, draws),
    ensures
        patched(content, draws).len() == content.len(),
        forall|at: int, j: int|
            #![trigger marked(content, at), patched(content, draws)[j]]
            marked(content, at) && covers(at, j) ==> is_letter(patched(content, draws)[j]),
        forall|j: int|
            0 <= j < content.len() && (forall|at: int|
                #[trigger] marked(content, at) ==> !covers(at, j)) ==> (#[trigger] patched(
                content,
                draws,
            )[j]) == content[j],
{
    let n = content.len();
    assert forall|at: int, j: int|
        #![trigger marked(content, at), patched(content, draws)[j]]
        marked(content, at) && covers(at, j) implies is_letter(patched(content, draws)[j]) by {
        lemma_last_cover(content, j, n);
        let last = last_cover(content, j, n)->0;
        lemma_markers_monotone(content, (last + 1) as nat, n);
        let k = markers_before(content, last);
        let t = j - last - 4;
        let total = markers_before(content, n);
        assert(k * NAME_LENGTH + t < total * NAME_LENGTH) by (nonlinear_arith)
            requires
                k + 1 <= total,
                0 <= t < NAME_LENGTH,
                NAME_LENGTH == 18,
        ;
        assert(0 <= k * NAME_LENGTH + t) by (nonlinear_arith)
            requires
                0 <= t,
                k >= 0,
                NAME_LENGTH == 18,
        ;
        assert(draws[k * NAME_LENGTH + t] < LETTERS);
    }
    assert forall|j: int|
        0 <= j < content.len() && (forall|at: int|
            #[trigger] marked(content, at) ==> !covers(at, j)) implies (#[trigger] patched(
        content,
        draws,
    )[j]) == content[j] by {
        lemma_last_cover(content, j, n);
    }
}

/// `last_cover` finds a marker that covers the place, where there is one.
proof fn lemma_last_cover(content: Seq<u8>, j: int, end: nat)
    ensures
        match last_cover(content, j, end) {
            Some(at) => at < end && marked(content, at as int) && covers(at as int, j),
            None => forall|at: int|
                0 <= at < end && #[trigger] marked(content, at) ==> !covers(at, j),
        },
    decreases end,
{
    if end > 0 {
        lemma_last_cover(content, j, (end - 1) as nat);
    }
}

/// Law: a binary without markers is left as it is.
pub proof fn law_patch_without_markers(content: Seq<u8>, draws: Seq<usize>)
    requires
        forall|at: int| !#[trigger] marked(content, at),
    ensures
        patched(content, draws) == content,
        markers_before(content, content.len()) == 0,
{
    lemma_no_markers(content, content.len());
    assert forall|j: int| 0 <= j < content.len() implies patched(content, draws)[j]
        == content[j] by {
        lemma_last_cover(content, j, content.len());
    }
    assert(patched(content, draws) =~= content);
}

proof fn lemma_no_markers(content: Seq<u8>, end: nat)
    requires
        forall|at: int| !#[trigger] marked(content, at),
    ensures
        markers_before(content, end) == 0,
    decreases end,
{
    if end > 0 {
        lemma_no_markers(content, (end - 1) as nat);
    }
}

/// Law: a marker is the four bytes `cdc_`, wherever they stand and whatever stands around them.
pub proof fn law_marker_is_four_bytes(content: Seq<u8>, at: int)
    ensures
        marked(content, at) <==> 0 <= at && at + 4 <= content.len() && content.subrange(at, at + 4)
            == seq![99u8, 100, 99, 95],
        has_room(content) <==> forall|i: int|
            0 <= i && i + 4 <= content.len() && #[trigger] content.subrange(i, i + 4) == seq![
                99u8,
                100,
                99,
                95,
            ] ==> i + 22 <= content.len(),
{
    assert forall|i: int| #[trigger] marked(content, i) <==> 0 <= i && i + 4 <= content.len()
        && content.subrange(i, i + 4) == seq![99u8, 100, 99, 95] by {
        let four = content.subrange(i, i + 4);
        if marked(content, i) {
            assert(four =~= seq![99u8, 100, 99, 95]);
        }
        if 0 <= i && i + 4 <= content.len() && four == seq![99u8, 100, 99, 95] {
            assert(four[0] == 99 && four[1] == 100 && four[2] == 99 && four[3] == 95);
        }
    }
    if has_room(content) {
        assert forall|i: int|
            0 <= i && i + 4 <= content.len() && #[trigger] content.subrange(i, i + 4) == seq![
                99u8,
                100,
                99,
                95,
            ] implies i + 22 <= content.len() by {
            assert(marked(content, i));
        }
    }
    if forall|i: int|
        0 <= i && i + 4 <= content.len() && #[trigger] content.subrange(i, i + 4) == seq![
            99u8,
            100,
            99,
            95,
        ] ==> i + 22 <= content.len() {
        assert forall|i: int| #[trigger] marked(content, i) implies i + 4 + NAME_LENGTH
            <= content.len() by {
            assert(content.subrange(i, i + 4) == seq![99u8, 100, 99, 95]);
        }
    }
}

/// Law: the markers are counted by the places at which the four bytes stand.
pub proof fn law_markers_are_counted(content: Seq<u8>, end: nat)
    requires
        end <= content.len(),
    ensures
        markers_before(content, end) == Seq::new(end, |i: int| i).filter(
            |i: int|
                i + 4 <= content.len() && content.subrange(i, i + 4) == seq![99u8, 100, 99, 95],
        ).len(),
    decreases end,
{
    let here = |i: int|
        i + 4 <= content.len() && content.subrange(i, i + 4) == seq![99u8, 100, 99, 95];
    let places = Seq::new(end, |i: int| i);
    reveal(Seq::filter);
    if end > 0 {
        law_markers_are_counted(content, (end - 1) as nat);
        assert(places.drop_last() =~= Seq::new((end - 1) as nat, |i: int| i));
        law_marker_is_four_bytes(content, end - 1);
        assert(places.last() == end - 1);
        assert(places.filter(here).len() == places.drop_last().filter(here).len() + (if here(
            end - 1,
        ) {
            1int
        } else {
            0int
        }));
    }
}

/// Law: in a patched binary the eighteen bytes behind every `cdc_` are letters, every byte that
/// is not behind one is what it was, and nothing is added or taken away.
pub proof fn law_patch_by_bytes(content: Seq<u8>, draws: Seq<usize>)
    requires
        has_room(content),
        enough(content, draws),
    ensures
        markers_before(content, content.len()) == Seq::new(content.len(), |i: int| i).filter(
            |i: int|
                i + 4 <= content.len() && content.subrange(i, i + 4) == seq![99u8, 100, 99, 95],
        ).len(),
        patched(content, draws).len() == content.len(),
        forall|at: int, j: int|
            #![trigger content.subrange(at, at + 4), patched(content, draws)[j]]
            0 <= at && at + 22 <= content.len() && content.subrange(at, at + 4) == seq![
                99u8,
                100,
                99,
                95,
            ] && at + 4 <= j < at + 22 ==> 97 <= patched(content, draws)[j] <= 122 || 65 <= patched(
                content,
                draws,
            )[j] <= 90,
        forall|j: int|
            0 <= j < content.len() && (forall|at: int|
                0 <= at && at + 4 <= content.len() && #[trigger] content.subrange(at, at + 4)
                    == seq![99u8, 100, 99, 95] ==> !(at + 4 <= j < at + 22)) ==> (
            #[trigger] patched(content, draws)[j]) == content[j],
{
    law_markers_are_counted(content, content.len());
    law_patch_overwrites_names_only(content, draws);
    assert forall|at: int, j: int|
        #![trigger content.subrange(at, at + 4), patched(content, draws)[j]]
        0 <= at && at + 22 <= content.len() && content.subrange(at, at + 4) == seq![
            99u8,
            100,
            99,
            95,
        ] && at + 4 <= j < at + 22 implies 97 <= patched(content, draws)[j] <= 122 || 65
        <= patched(content, draws)[j] <= 90 by {
        law_marker_is_four_bytes(content, at);
        assert(marked(content, at) && covers(at, j));
        assert(is_letter(patched(content, draws)[j]));
    }
    assert forall|j: int|
        0 <= j < content.len() && (forall|at: int|
            0 <= at && at + 4 <= content.len() && #[trigger] content.subrange(at, at + 4) == seq![
                99u8,
                100,
                99,
                95,
            ] ==> !(at + 4 <= j < at + 22)) implies (#[trigger] patched(content, draws)[j])
        == content[j] by {
        assert forall|at: int| #[trigger] marked(content, at) implies !covers(at, j) by {
            law_marker_is_four_bytes(content, at);
            assert(content.subrange(at, at + 4) == seq![99u8, 100, 99, 95]);
        }
    }
}

/// Law: the letters are the small ones and then the capitals of the alphabet, and different
/// numbers stand for different letters.
pub proof fn law_letters(m: nat, n: nat)
    requires
        m < 52,
        n < 52,
    ensures
        letter(n) == (if n < 26 {
            97 + n
        } else {
            39 + n
        }),
        letter(m) == letter(n) ==> m == n,
{
}

/// Law: each overwritten byte is the letter of its own draw: behind the marker with `k` markers
/// before it, the byte at distance `t` is that of draw `18 * k + t`, unless a later marker reaches
/// it.
pub proof fn law_each_byte_has_its_draw(content: Seq<u8>, draws: Seq<usize>, at: int, t: int)
    requires
        has_room(content),
        enough(content, draws),
        0 <= at,
        at + 22 <= content.len(),
        content.subrange(at, at + 4) == seq![99u8, 100, 99, 95],
        0 <= t < 18,
        forall|later: int|
            at < later <= at + t && later + 4 <= content.len() ==> #[trigger] content.subrange(
                later,
                later + 4,
            ) != seq![99u8, 100, 99, 95],
    ensures
        ({
            let k = Seq::new(at as nat, |i: int| i).filter(
                |i: int|
                    i + 4 <= content.len() && content.subrange(i, i + 4) == seq![
                        99u8,
                        100,
                        99,
                        95,
                    ],
            ).len();
            let draw = draws[(18 * k + t) as int];
            patched(content, draws)[at + 4 + t] == (if draw < 26 {
                97 + draw
            } else {
                39 + draw
            })
        }),
{
    let j = at + 4 + t;
    let n = content.len();
    law_markers_are_counted(content, at as nat);
    law_marker_is_four_bytes(content, at);
    lemma_last_cover(content, j, n);
    let last = last_cover(content, j, n)->0;
    lemma_last_cover_is_last(content, j, n, at);
    if last > at {
        law_marker_is_four_bytes(content, last as int);
        assert(content.subrange(last as int, last as int + 4) == seq![99u8, 100, 99, 95]);
    }
    lemma_markers_monotone(content, (at + 1) as nat, n);
    let k = markers_before(content, at as nat);
    let total = markers_before(content, n);
    assert(k * NAME_LENGTH == 18 * k) by (nonlinear_arith)
        requires
            NAME_LENGTH == 18,
    ;
    assert(0 <= 18 * k + t < total * NAME_LENGTH) by (nonlinear_arith)
        requires
            k + 1 <= total,
            0 <= t < 18,
            NAME_LENGTH == 18,
            k >= 0,
    ;
    assert(draws[18 * k + t] < LETTERS);
    law_letters(0, draws[18 * k + t] as nat);
}

/// `last_cover` finds no earlier marker than one that covers the place.
proof fn lemma_last_cover_is_last(content: Seq<u8>, j: int, end: nat, at: int)
    requires
        0 <= at < end,
        marked(content, at),
        covers(at, j),
    ensures
        last_cover(content, j, end) matches Some(last) && at <= last,
    decreases end,
{
    if at < end - 1 {
        lemma_last_cover_is_last(content, j, (end - 1) as nat, at);
    }
}

/// Law: eighteen draws are made for every place at which the four bytes stand, and each names one of
/// fifty-two letters.
pub proof fn law_draws(content: Seq<u8>, draws: Seq<usize>)
    ensures
        enough(content, draws) <==> draws.len() == 18 * Seq::new(
            content.len(),
            |i: int| i,
        ).filter(
            |i: int|
                i + 4 <= content.len() && content.subrange(i, i + 4) == seq![99u8, 100, 99, 95],
        ).len() && forall|i: int| 0 <= i < draws.len() ==> #[trigger] draws[i] < 52,
{
    law_markers_are_counted(content, content.len());
}

} // verus!
