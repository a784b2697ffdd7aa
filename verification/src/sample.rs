//! The stratified pack sampler.
//!
//! The cube is partitioned into three disjoint tiers by rarity — rare and
//! mythic together, uncommon, common — and from each tier the sampler draws
//! a random subset without replacement: as many cards as the pack
//! specification asks for across all packs, capped by what the tier holds.
//! The draws are concatenated, rares first, then uncommons, then commons.
//! Cards with an absent or unrecognised rarity belong to no tier and are
//! never drawn. A tier smaller than its requested total silently yields the
//! whole tier — never an error, never a repeated card.

use rand::seq::SliceRandom;
use vstd::math::min;
use vstd::prelude::*;
use vstd::seq_lib::group_filter_ensures;
use vstd::seq_lib::lemma_multiset_commutative;

use crate::card::is_common;
use crate::card::is_rare;
use crate::card::is_sampleable;
use crate::card::is_uncommon;
use crate::card::card_is_common;
use crate::card::card_is_rare;
use crate::card::card_is_uncommon;
use crate::card::Card;
use crate::card::CardView;

verus! {

/// How packs are composed: how many packs, and how many cards of each tier
/// go into one pack.
pub struct PackSpec {
    pub pack_count: usize,
    pub rares_per_pack: usize,
    pub uncommons_per_pack: usize,
    pub commons_per_pack: usize,
}

/// The cube's rare tier, in cube order.
pub open spec fn rares_of(s: Seq<CardView>) -> Seq<CardView> {
    s.filter(|c: CardView| is_rare(c))
}

/// The cube's uncommon tier, in cube order.
pub open spec fn uncommons_of(s: Seq<CardView>) -> Seq<CardView> {
    s.filter(|c: CardView| is_uncommon(c))
}

/// The cube's common tier, in cube order.
pub open spec fn commons_of(s: Seq<CardView>) -> Seq<CardView> {
    s.filter(|c: CardView| is_common(c))
}

/// How many cards a tier yields: the requested total across all packs,
/// capped by what the tier holds.
pub open spec fn tier_amount(per_pack: int, packs: int, avail: int) -> int {
    min(per_pack * packs, avail)
}

/// The random source of the sampler, declared from the outside random
/// number library.
#[verifier::external_type_specification]
#[verifier::external_body]
pub struct ExThreadRng(rand::rngs::ThreadRng);

/// Relies on `rand::thread_rng`: a handle to the thread-local random number
/// generator. Nothing is promised of the numbers it will yield.
#[verifier::external_body]
fn fresh_rng() -> rand::rngs::ThreadRng {
    rand::thread_rng()
}

/// Relies on `rand::seq::SliceRandom::choose_multiple`: it chooses
/// `min(amount, pool.len())` elements of the pool at random, without
/// repetition — distinct positions, so the result is a sub-multiset of the
/// pool — and in random order. Nothing more holds of any single outcome.
#[verifier::external_body]
fn choose_from(pool: &Vec<Card>, rng: &mut rand::rngs::ThreadRng, amount: usize) -> (r: Vec<
    Card,
>)
    ensures
        r.deep_view().len() == min(amount as int, pool.deep_view().len() as int),
        r.deep_view().to_multiset().subset_of(pool.deep_view().to_multiset()),
{
    pool.choose_multiple(rng, amount).cloned().collect()
}

/// Splits the cube into its three tiers, each in cube order.
pub fn partition(cube: &Vec<Card>) -> (r: (Vec<Card>, Vec<Card>, Vec<Card>))
    ensures
        r.0.deep_view() == rares_of(cube.deep_view()),
        r.1.deep_view() == uncommons_of(cube.deep_view()),
        r.2.deep_view() == commons_of(cube.deep_view()),
{
    let mut rares: Vec<Card> = Vec::new();
    let mut uncommons: Vec<Card> = Vec::new();
    let mut commons: Vec<Card> = Vec::new();
    let ghost cv = cube.deep_view();
    let n = cube.len();
    proof {
        assert(cv.take(0) =~= Seq::<CardView>::empty());
        reveal(Seq::filter);
    }
    for i in 0..n
        invariant
            n == cube.len(),
            cv == cube.deep_view(),
            rares.deep_view() == rares_of(cv.take(i as int)),
            uncommons.deep_view() == uncommons_of(cv.take(i as int)),
            commons.deep_view() == commons_of(cv.take(i as int)),
    {
        let c = &cube[i];
        proof {
            assert(cube.deep_view()[i as int] == cube@[i as int].deep_view());
            assert(cv.take(i + 1).drop_last() =~= cv.take(i as int));
            assert(cv.take(i + 1).last() == cv[i as int]);
            reveal(Seq::filter);
        }
        if card_is_rare(c) {
            rares.push(c.clone());
        }
        if card_is_uncommon(c) {
            uncommons.push(c.clone());
        }
        if card_is_common(c) {
            commons.push(c.clone());
        }
        proof {
            reveal(Seq::filter);
            assert(rares.deep_view() =~= rares_of(cv.take(i + 1)));
            assert(uncommons.deep_view() =~= uncommons_of(cv.take(i + 1)));
            assert(commons.deep_view() =~= commons_of(cv.take(i + 1)));
        }
    }
    proof {
        assert(cv.take(n as int) =~= cv);
    }
    (rares, uncommons, commons)
}

/// The tier totals: `min(per_pack * packs, avail)`, computed without
/// overflow.
fn tier_total(per_pack: usize, packs: usize, avail: usize) -> (r: usize)
    ensures
        r == tier_amount(per_pack as int, packs as int, avail as int),
{
    match per_pack.checked_mul(packs) {
        Some(t) => if t < avail {
            t
        } else {
            avail
        },
        None => avail,
    }
}

/// No card belongs to two tiers: the three rarity predicates are mutually
/// exclusive.
pub proof fn lemma_tiers_disjoint(c: CardView)
    ensures
        is_rare(c) ==> !is_uncommon(c) && !is_common(c),
        is_uncommon(c) ==> !is_common(c),
{
    broadcast use vstd::string::group_string_axioms;

    reveal_strlit("rare");
    reveal_strlit("mythic");
    reveal_strlit("uncommon");
    reveal_strlit("common");
    assert(("rare"@).len() == 4);
    assert(("uncommon"@).len() == 8);
    assert(("common"@).len() == 6);
    assert(("mythic"@)[0] == 'm');
    assert(("common"@)[0] == 'c');
    match c.rarity {
        Some(r) => {
            assert(r == "rare"@ || r == "mythic"@ ==> r != "uncommon"@ && r != "common"@);
            assert(r == "uncommon"@ ==> r != "common"@);
        },
        None => {},
    }
}

/// In any cube, the three tiers together hold no card more often than the
/// cube itself does: the tiers are disjoint sub-multisets of the cube.
pub proof fn lemma_tiers_within_cube(s: Seq<CardView>)
    ensures
        forall|x: CardView|
            rares_of(s).to_multiset().count(x) + uncommons_of(s).to_multiset().count(x)
                + commons_of(s).to_multiset().count(x) <= #[trigger] s.to_multiset().count(x),
    decreases s.len(),
{
    broadcast use vstd::seq_lib::group_to_multiset_ensures;
    broadcast use vstd::multiset::group_multiset_axioms;

    reveal(Seq::filter);
    if s.len() == 0 {
    } else {
        let d = s.drop_last();
        let last = s.last();
        lemma_tiers_within_cube(d);
        lemma_tiers_disjoint(last);
        assert(s =~= d.push(last));
        assert(s.to_multiset() =~= d.to_multiset().insert(last));
        if is_rare(last) {
            assert(!is_uncommon(last) && !is_common(last));
            assert(rares_of(s) == rares_of(d).push(last));
            assert(rares_of(s).to_multiset() =~= rares_of(d).to_multiset().insert(last));
        } else if is_uncommon(last) {
            assert(!is_common(last));
            assert(uncommons_of(s) == uncommons_of(d).push(last));
            assert(uncommons_of(s).to_multiset() =~= uncommons_of(d).to_multiset().insert(last));
        } else if is_common(last) {
            assert(commons_of(s) == commons_of(d).push(last));
            assert(commons_of(s).to_multiset() =~= commons_of(d).to_multiset().insert(last));
        }
    }
}

/// Every card of a tier's multiset satisfies the tier's predicate.
proof fn lemma_subset_of_filter_sampleable(s: Seq<CardView>, drawn: Seq<CardView>)
    requires
        drawn.to_multiset().subset_of(rares_of(s).to_multiset()) || drawn.to_multiset().subset_of(
            uncommons_of(s).to_multiset(),
        ) || drawn.to_multiset().subset_of(commons_of(s).to_multiset()),
    ensures
        forall|i: int| 0 <= i < drawn.len() ==> is_sampleable(#[trigger] drawn[i]),
{
    broadcast use vstd::seq_lib::group_to_multiset_ensures;
    broadcast use group_filter_ensures;

    assert forall|i: int| 0 <= i < drawn.len() implies is_sampleable(#[trigger] drawn[i]) by {
        assert(drawn.to_multiset().count(drawn[i]) > 0);
        if drawn.to_multiset().subset_of(rares_of(s).to_multiset()) {
            assert(rares_of(s).to_multiset().count(drawn[i]) > 0);
            let j = choose|j: int|
                0 <= j < rares_of(s).len() && rares_of(s)[j] == drawn[i];
            assert(is_rare(rares_of(s)[j]));
        } else if drawn.to_multiset().subset_of(uncommons_of(s).to_multiset()) {
            assert(uncommons_of(s).to_multiset().count(drawn[i]) > 0);
            let j = choose|j: int|
                0 <= j < uncommons_of(s).len() && uncommons_of(s)[j] == drawn[i];
            assert(is_uncommon(uncommons_of(s)[j]));
        } else {
            assert(commons_of(s).to_multiset().count(drawn[i]) > 0);
            let j = choose|j: int|
                0 <= j < commons_of(s).len() && commons_of(s)[j] == drawn[i];
            assert(is_common(commons_of(s)[j]));
        }
    }
}

/// Draws a simulated multi-pack pool from the cube: from each tier,
/// `tier_amount` cards at random without replacement; the three draws
/// concatenated, rares first, then uncommons, then commons. The pool as a
/// whole is a sub-multiset of the cube — no draw uses a cube entry twice —
/// and every drawn card belongs to a tier; a card with absent or
/// unrecognised rarity is never drawn.
pub fn generate_pool(cube: &Vec<Card>, spec: &PackSpec) -> (r: Vec<Card>)
    ensures
        ({
            let cv = cube.deep_view();
            let rv = r.deep_view();
            let nr = tier_amount(
                spec.rares_per_pack as int,
                spec.pack_count as int,
                rares_of(cv).len() as int,
            );
            let nu = tier_amount(
                spec.uncommons_per_pack as int,
                spec.pack_count as int,
                uncommons_of(cv).len() as int,
            );
            let nc = tier_amount(
                spec.commons_per_pack as int,
                spec.pack_count as int,
                commons_of(cv).len() as int,
            );
            &&& rv.len() == nr + nu + nc
            &&& rv.subrange(0, nr).to_multiset().subset_of(rares_of(cv).to_multiset())
            &&& rv.subrange(nr, nr + nu).to_multiset().subset_of(
                uncommons_of(cv).to_multiset(),
            )
            &&& rv.subrange(nr + nu, rv.len() as int).to_multiset().subset_of(
                commons_of(cv).to_multiset(),
            )
            &&& rv.to_multiset().subset_of(cv.to_multiset())
            &&& forall|i: int| 0 <= i < rv.len() ==> is_sampleable(#[trigger] rv[i])
        }),
{
    let ghost cv = cube.deep_view();
    let (rares, uncommons, commons) = partition(cube);
    let mut rng = fresh_rng();
    let drawn_r = choose_from(&rares, &mut rng, tier_total(
        spec.rares_per_pack,
        spec.pack_count,
        rares.len(),
    ));
    let drawn_u = choose_from(&uncommons, &mut rng, tier_total(
        spec.uncommons_per_pack,
        spec.pack_count,
        uncommons.len(),
    ));
    let drawn_c = choose_from(&commons, &mut rng, tier_total(
        spec.commons_per_pack,
        spec.pack_count,
        commons.len(),
    ));
    let ghost dr = drawn_r.deep_view();
    let ghost du = drawn_u.deep_view();
    let ghost dc = drawn_c.deep_view();
    let mut pool = drawn_r;
    let mut rest_u = drawn_u;
    let mut rest_c = drawn_c;
    pool.append(&mut rest_u);
    pool.append(&mut rest_c);
    proof {
        broadcast use vstd::multiset::group_multiset_axioms;

        let rv = pool.deep_view();
        assert(rv =~= dr + du + dc);
        assert(rares.deep_view().len() == rares@.len());
        assert(rv.subrange(0, dr.len() as int) =~= dr);
        assert(rv.subrange(dr.len() as int, (dr.len() + du.len()) as int) =~= du);
        assert(rv.subrange((dr.len() + du.len()) as int, rv.len() as int) =~= dc);
        lemma_multiset_commutative(dr + du, dc);
        lemma_multiset_commutative(dr, du);
        lemma_tiers_within_cube(cv);
        assert forall|x: CardView| rv.to_multiset().count(x) <= cv.to_multiset().count(
            x,
        ) by {
            assert(dr.to_multiset().count(x) <= rares_of(cv).to_multiset().count(x));
            assert(du.to_multiset().count(x) <= uncommons_of(cv).to_multiset().count(x));
            assert(dc.to_multiset().count(x) <= commons_of(cv).to_multiset().count(x));
        }
        lemma_subset_of_filter_sampleable(cv, dr);
        lemma_subset_of_filter_sampleable(cv, du);
        lemma_subset_of_filter_sampleable(cv, dc);
        assert forall|i: int| 0 <= i < rv.len() implies is_sampleable(#[trigger] rv[i]) by {
            if i < dr.len() {
                assert(rv[i] == dr[i]);
            } else if i < dr.len() + du.len() {
                assert(rv[i] == du[i - dr.len()]);
            } else {
                assert(rv[i] == dc[i - dr.len() - du.len()]);
            }
        }
    }
    pool
}

} // verus!
