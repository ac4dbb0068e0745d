//! The randomizer: rounds of the seven variants, each in an order of its own.
use crate::random::{generator_from_seed, generator_state, seeded_state, shuffle, shuffle_outcome};
use crate::tetromino::{Tetromino, TetrominoVariant};
use rand::rngs::StdRng;
use vstd::prelude::*;

verus! {

/// What a `Bag` stands for: the look-ahead queue and the pool behind it.
pub struct Supply {
    /// The pieces that come next, the first of them first.
    pub next: Seq<TetrominoVariant>,
    /// The pieces behind them; the last of them comes first.
    pub rest: Seq<TetrominoVariant>,
}

/// Whether `pieces` is a round: each of the seven variants once.
pub open spec fn is_round(pieces: Seq<TetrominoVariant>) -> bool {
    pieces.len() == 7 && pieces.no_duplicates()
}

impl Supply {
    /// The pieces in the order in which they will be handed out.
    pub open spec fn upcoming(self) -> Seq<TetrominoVariant> {
        self.next + self.rest.reverse()
    }

    /// The queue holds three pieces and the pool at least one. The pieces that
    /// are left of a round hold no variant twice; where the pool holds more
    /// than four, the last seven are a whole round.
    pub open spec fn wf(self) -> bool {
        &&& self.next.len() == 3
        &&& 1 <= self.rest.len() <= 7
        &&& if self.rest.len() <= 4 {
            self.upcoming().no_duplicates()
        } else {
            &&& self.upcoming().take(self.rest.len() - 4).no_duplicates()
            &&& is_round(self.upcoming().skip(self.rest.len() - 4))
        }
    }

    /// A whole round lies ahead and nothing else.
    pub open spec fn fresh(self) -> bool {
        &&& self.next.len() == 3
        &&& self.rest.len() == 4
        &&& is_round(self.upcoming())
    }

    /// The supply made of one round: its last three pieces in the queue, the
    /// four before them in the pool.
    pub open spec fn of_round(round: Seq<TetrominoVariant>) -> Supply {
        Supply { next: round.skip(round.len() - 3), rest: round.take(round.len() - 3) }
    }

    /// Whether handing out one piece empties the pool.
    pub open spec fn runs_out(self) -> bool {
        self.rest.len() <= 1
    }

    /// The piece that is handed out next.
    pub open spec fn first(self) -> TetrominoVariant {
        self.next.push(self.rest.last())[0]
    }

    /// The supply after one piece was handed out: the last of the pool has
    /// joined the queue, and where that emptied the pool, `round` has taken its place.
    pub open spec fn drawn(self, round: Seq<TetrominoVariant>) -> Supply {
        Supply {
            next: self.next.push(self.rest.last()).skip(1),
            rest: if self.runs_out() {
                round
            } else {
                self.rest.drop_last()
            },
        }
    }

    /// The first `count` pieces that are handed out, where `rounds` are the
    /// rounds that fill the pool when it runs out, in their order.
    pub open spec fn draws(self, rounds: Seq<Seq<TetrominoVariant>>, count: nat) -> Seq<
        TetrominoVariant,
    >
        decreases count,
    {
        if count == 0 {
            Seq::empty()
        } else if self.runs_out() {
            seq![self.first()] + self.drawn(rounds[0]).draws(rounds.skip(1), (count - 1) as nat)
        } else {
            seq![self.first()] + self.drawn(Seq::empty()).draws(rounds, (count - 1) as nat)
        }
    }

    /// The supply after `count` pieces were handed out.
    pub open spec fn after_draws(self, rounds: Seq<Seq<TetrominoVariant>>, count: nat) -> Supply
        decreases count,
    {
        if count == 0 {
            self
        } else if self.runs_out() {
            self.drawn(rounds[0]).after_draws(rounds.skip(1), (count - 1) as nat)
        } else {
            self.drawn(Seq::empty()).after_draws(rounds, (count - 1) as nat)
        }
    }

    /// A round names every variant.
    pub proof fn lemma_round_holds_each(round: Seq<TetrominoVariant>, variant: TetrominoVariant)
        requires
            is_round(round),
        ensures
            round.contains(variant),
    {
        if !round.contains(variant) {
            assert(forall|i: int| 0 <= i < 7 ==> round[i] != variant);
            let code = |v: TetrominoVariant|
                match v {
                    TetrominoVariant::I => 0int,
                    TetrominoVariant::J => 1int,
                    TetrominoVariant::L => 2int,
                    TetrominoVariant::O => 3int,
                    TetrominoVariant::S => 4int,
                    TetrominoVariant::T => 5int,
                    TetrominoVariant::Z => 6int,
                };
            let c0 = code(round[0]);
            let c1 = code(round[1]);
            let c2 = code(round[2]);
            let c3 = code(round[3]);
            let c4 = code(round[4]);
            let c5 = code(round[5]);
            let c6 = code(round[6]);
            let c = code(variant);
            assert(c0 != c1 && c0 != c2 && c0 != c3 && c0 != c4 && c0 != c5 && c0 != c6);
            assert(c1 != c2 && c1 != c3 && c1 != c4 && c1 != c5 && c1 != c6);
            assert(c2 != c3 && c2 != c4 && c2 != c5 && c2 != c6);
            assert(c3 != c4 && c3 != c5 && c3 != c6);
            assert(c4 != c5 && c4 != c6);
            assert(c5 != c6);
            assert(c0 != c && c1 != c && c2 != c && c3 != c && c4 != c && c5 != c && c6 != c);
            assert(false);
        }
    }

    /// A shuffle of the seven variants is a round.
    pub proof fn lemma_shuffled_is_round(shuffled: Seq<TetrominoVariant>)
        requires
            shuffled.to_multiset() == TetrominoVariant::all().to_multiset(),
        ensures
            is_round(shuffled),
    {
        let all = TetrominoVariant::all();
        assert(all.no_duplicates());
        all.to_multiset_ensures();
        shuffled.to_multiset_ensures();
        all.lemma_multiset_has_no_duplicates();
        shuffled.lemma_multiset_has_no_duplicates_conv();
    }

    /// The seven pieces that a fresh supply hands out are the round that lay
    /// ahead: they hold each of the seven variants, none twice. After them the
    /// supply is fresh again, whatever round came in meanwhile.
    pub proof fn lemma_seven_draws_are_a_round(self, rounds: Seq<Seq<TetrominoVariant>>)
        requires
            self.fresh(),
            rounds.len() >= 1,
            is_round(rounds[0]),
        ensures
            self.draws(rounds, 7) == self.upcoming(),
            is_round(self.draws(rounds, 7)),
            forall|variant: TetrominoVariant| #[trigger] self.draws(rounds, 7).contains(variant),
            self.after_draws(rounds, 7).fresh(),
            self.after_draws(rounds, 7).upcoming() == rounds[0].reverse(),
    {
        let round = rounds[0];
        let later = rounds.skip(1);
        let s0 = self;
        let none = Seq::<TetrominoVariant>::empty();
        let s1 = s0.drawn(none);
        let s2 = s1.drawn(none);
        let s3 = s2.drawn(none);
        let s4 = s3.drawn(round);
        let s5 = s4.drawn(none);
        let s6 = s5.drawn(none);
        let s7 = s6.drawn(none);
        assert(!s0.runs_out() && !s1.runs_out() && !s2.runs_out() && s3.runs_out());
        assert(s4.rest == round);
        assert(!s4.runs_out() && !s5.runs_out() && !s6.runs_out());
        assert(s7.draws(later, 0) =~= Seq::<TetrominoVariant>::empty());
        assert(s6.draws(later, 1) =~= seq![s6.first()]);
        assert(s5.draws(later, 2) =~= seq![s5.first(), s6.first()]);
        assert(s4.draws(later, 3) =~= seq![s4.first(), s5.first(), s6.first()]);
        assert(s3.draws(rounds, 4) =~= seq![s3.first(), s4.first(), s5.first(), s6.first()]);
        assert(s2.draws(rounds, 5) =~= seq![
            s2.first(),
            s3.first(),
            s4.first(),
            s5.first(),
            s6.first(),
        ]);
        assert(s1.draws(rounds, 6) =~= seq![
            s1.first(),
            s2.first(),
            s3.first(),
            s4.first(),
            s5.first(),
            s6.first(),
        ]);
        assert(s0.draws(rounds, 7) =~= seq![
            s0.first(),
            s1.first(),
            s2.first(),
            s3.first(),
            s4.first(),
            s5.first(),
            s6.first(),
        ]);
        assert(s0.draws(rounds, 7) =~= self.upcoming());
        assert(s7 == s7.after_draws(later, 0));
        assert(s7 == s6.after_draws(later, 1));
        assert(s7 == s5.after_draws(later, 2));
        assert(s7 == s4.after_draws(later, 3));
        assert(s7 == s3.after_draws(rounds, 4));
        assert(s7 == s2.after_draws(rounds, 5));
        assert(s7 == s1.after_draws(rounds, 6));
        assert(s7 == s0.after_draws(rounds, 7));
        assert(s7.upcoming() =~= round.reverse());
        assert(s7.next.len() == 3 && s7.rest.len() == 4);
        assert forall|variant: TetrominoVariant| #[trigger]
            self.draws(rounds, 7).contains(variant) by {
            Supply::lemma_round_holds_each(self.upcoming(), variant);
        }
    }
}

/// The pieces a player is dealt.
pub struct Bag {
    /// The look-ahead queue: the pieces that come next, the first of them first.
    pub next: Vec<TetrominoVariant>,
    /// The pool behind the queue; its last piece joins the queue first.
    pub rest: Vec<TetrominoVariant>,
}

impl View for Bag {
    type V = Supply;

    open spec fn view(&self) -> Supply {
        Supply { next: self.next@, rest: self.rest@ }
    }
}

impl Bag {
    /// The round that a generator in `state` shuffles, and the state it is left in.
    pub open spec fn spec_round(state: Seq<u32>) -> (Seq<TetrominoVariant>, Seq<u32>) {
        shuffle_outcome(state, TetrominoVariant::all())
    }

    /// The bag that a generator in `state` fills, and the state it is left in.
    pub open spec fn spec_new(state: Seq<u32>) -> (Supply, Seq<u32>) {
        (Supply::of_round(Bag::spec_round(state).0), Bag::spec_round(state).1)
    }

    /// What handing out one piece makes of a supply and of the generator's
    /// `state`: a round is shuffled only where the pool runs out.
    pub open spec fn spec_get_next(supply: Supply, state: Seq<u32>) -> (Supply, Seq<u32>) {
        if supply.runs_out() {
            (supply.drawn(Bag::spec_round(state).0), Bag::spec_round(state).1)
        } else {
            (supply.drawn(Seq::empty()), state)
        }
    }

    /// Whether the pieces from `from` up to `to` hold no variant twice.
    fn distinct(pieces: &Vec<TetrominoVariant>, from: usize, to: usize) -> (distinct: bool)
        requires
            from <= to <= pieces@.len(),
        ensures
            distinct == pieces@.subrange(from as int, to as int).no_duplicates(),
    {
        let ghost part = pieces@.subrange(from as int, to as int);
        let mut i: usize = from;
        while i < to
            invariant
                from <= i <= to <= pieces@.len(),
                part == pieces@.subrange(from as int, to as int),
                forall|a: int, b: int|
                    0 <= a < i - from && 0 <= b < part.len() && a != b ==> #[trigger] part[a]
                        != #[trigger] part[b],
            decreases to - i,
        {
            let mut j: usize = from;
            while j < to
                invariant
                    from <= i < to <= pieces@.len(),
                    from <= j <= to,
                    part == pieces@.subrange(from as int, to as int),
                    forall|b: int|
                        0 <= b < j - from && i - from != b ==> part[i - from] != #[trigger] part[b],
                decreases to - j,
            {
                if i != j && pieces[i] == pieces[j] {
                    assert(part[i - from] == part[j - from]);
                    return false;
                }
                j += 1;
            }
            i += 1;
        }
        true
    }

    /// The pieces in the order in which they will be handed out.
    pub fn upcoming(&self) -> (pieces: Vec<TetrominoVariant>)
        ensures
            pieces@ == self@.upcoming(),
    {
        let mut pieces: Vec<TetrominoVariant> = Vec::new();
        let mut i: usize = 0;
        while i < self.next.len()
            invariant
                i <= self.next@.len(),
                pieces@ == self.next@.take(i as int),
            decreases self.next@.len() - i,
        {
            pieces.push(self.next[i]);
            i += 1;
            assert(pieces@ =~= self.next@.take(i as int));
        }
        assert(self.next@.take(self.next@.len() as int) =~= self.next@);
        let mut k: usize = self.rest.len();
        while k > 0
            invariant
                k <= self.rest@.len(),
                pieces@ == self.next@ + self.rest@.reverse().take(self.rest@.len() - k),
            decreases k,
        {
            k -= 1;
            pieces.push(self.rest[k]);
            assert(pieces@ =~= self.next@ + self.rest@.reverse().take(self.rest@.len() - k));
        }
        assert(self.rest@.reverse().take(self.rest@.len() as int) =~= self.rest@.reverse());
        pieces
    }

    /// Whether the bag is in order: see `Supply::wf`.
    pub fn is_wf(&self) -> (ok: bool)
        ensures
            ok == self@.wf(),
    {
        let held = self.rest.len();
        if self.next.len() != 3 || held < 1 || held > 7 {
            return false;
        }
        let upcoming = self.upcoming();
        if held <= 4 {
            let ok = Bag::distinct(&upcoming, 0, upcoming.len());
            assert(upcoming@.subrange(0, upcoming@.len() as int) =~= upcoming@);
            ok
        } else {
            proof {
                assert(upcoming@.subrange(0, held - 4) =~= upcoming@.take(held - 4));
                assert(upcoming@.subrange(held - 4, upcoming@.len() as int) =~= upcoming@.skip(
                    held - 4,
                ));
            }
            Bag::distinct(&upcoming, 0, held - 4) && Bag::distinct(
                &upcoming,
                held - 4,
                upcoming.len(),
            )
        }
    }

    /// The bag that holds the round `round`: its last three pieces in the
    /// queue, the others in the pool.
    pub fn of_round(round: Vec<TetrominoVariant>) -> (bag: Bag)
        requires
            round@.len() >= 3,
        ensures
            bag@ == Supply::of_round(round@),
            is_round(round@) ==> bag@.fresh() && bag@.wf(),
    {
        let mut rest = round;
        let next = rest.split_off(rest.len() - 3);
        let bag = Bag { next, rest };
        proof {
            if is_round(round@) {
                let upcoming = bag@.upcoming();
                assert(upcoming =~= round@.skip(4) + round@.take(4).reverse());
                assert forall|i: int, j: int|
                    0 <= i < upcoming.len() && 0 <= j < upcoming.len() && i != j implies upcoming[i]
                    != upcoming[j] by {
                    let a = if i < 3 {
                        4 + i
                    } else {
                        6 - i
                    };
                    let b = if j < 3 {
                        4 + j
                    } else {
                        6 - j
                    };
                    assert(upcoming[i] == round@[a]);
                    assert(upcoming[j] == round@[b]);
                }
            }
        }
        bag
    }

    /// A bag filled with one round, shuffled by `seed`.
    pub fn new(seed: &mut StdRng) -> (bag: Bag)
        ensures
            bag@ == Bag::spec_new(generator_state(*old(seed))).0,
            generator_state(*final(seed)) == Bag::spec_new(generator_state(*old(seed))).1,
            bag@.fresh(),
            bag@.wf(),
    {
        Bag::of_round(Bag::rand_bag_gen(seed))
    }

    /// The seven variants, shuffled.
    pub fn rand_bag_gen(seed: &mut StdRng) -> (round: Vec<TetrominoVariant>)
        ensures
            round@ == Bag::spec_round(generator_state(*old(seed))).0,
            generator_state(*final(seed)) == Bag::spec_round(generator_state(*old(seed))).1,
            is_round(round@),
    {
        let mut bag = TetrominoVariant::list();
        shuffle(&mut bag, seed);
        proof {
            Supply::lemma_shuffled_is_round(bag@);
        }
        bag
    }

    /// Whether handing out one piece empties the pool.
    pub fn runs_out(&self) -> (empties: bool)
        ensures
            empties == self@.runs_out(),
    {
        self.rest.len() <= 1
    }

    /// Hands out the next piece. The last piece of the pool joins the queue;
    /// where that empties the pool, `round` takes its place.
    pub fn draw(&mut self, round: Vec<TetrominoVariant>) -> (piece: Tetromino)
        requires
            old(self)@.wf(),
            old(self)@.runs_out() ==> is_round(round@),
        ensures
            piece@ == old(self)@.first().spawn(),
            final(self)@ == old(self)@.drawn(round@),
            final(self)@.wf(),
    {
        let ghost before = self@;
        let last = self.rest.pop().unwrap();
        self.next.push(last);
        if self.rest.is_empty() {
            self.rest = round;
        }
        let variant = self.next.remove(0);
        proof {
            assert(self@.next =~= before.next.push(before.rest.last()).skip(1));
            if !before.runs_out() {
                assert(self@.rest =~= before.rest.drop_last());
            }
            Bag::lemma_drawn_wf(before, round@);
        }
        Tetromino::new(variant)
    }

    /// Hands out the next piece. The last piece of the pool joins the queue;
    /// where that empties the pool, a new round is shuffled into it.
    pub fn get_next(&mut self, seed: &mut StdRng) -> (piece: Tetromino)
        requires
            old(self)@.wf(),
        ensures
            piece@ == old(self)@.first().spawn(),
            final(self)@ == Bag::spec_get_next(old(self)@, generator_state(*old(seed))).0,
            generator_state(*final(seed)) == Bag::spec_get_next(
                old(self)@,
                generator_state(*old(seed)),
            ).1,
            final(self)@.wf(),
            old(self)@.runs_out() ==> is_round(final(self)@.rest),
    {
        let round = if self.runs_out() {
            Bag::rand_bag_gen(seed)
        } else {
            Vec::new()
        };
        self.draw(round)
    }

    /// Handing out a piece keeps a supply in order, where the round that comes
    /// in when the pool runs out is a round.
    pub proof fn lemma_drawn_wf(supply: Supply, round: Seq<TetrominoVariant>)
        requires
            supply.wf(),
            supply.runs_out() ==> is_round(round),
        ensures
            supply.drawn(round).wf(),
    {
        let after = supply.drawn(round);
        let n = supply.rest.len() as int;
        let before_up = supply.upcoming();
        let after_up = after.upcoming();
        if supply.runs_out() {
            // The old round's last three pieces, then the new round.
            assert(after.rest.len() == 7);
            assert forall|i: int| 0 <= i < 3 implies after_up[i] == #[trigger] before_up[i + 1] by {
            }
            assert(after_up.take(3) =~= before_up.skip(1));
            assert(after_up.skip(3) =~= round.reverse());
            assert(round.reverse().no_duplicates());
        } else {
            assert(after_up =~= before_up.skip(1));
            if n <= 4 {
            } else if n == 5 {
                assert(after_up =~= before_up.skip(n - 4));
            } else {
                assert(after_up.take(n - 5) =~= before_up.take(n - 4).skip(1));
                assert(after_up.skip(n - 5) =~= before_up.skip(n - 4));
            }
        }
    }
}

/// The bag that a generator seeded with `seed` deals from after it has
/// handed out `count` pieces, and the state of the generator then.
pub open spec fn spec_dealt(seed: u64, count: nat) -> (Supply, Seq<u32>)
    decreases count,
{
    if count == 0 {
        Bag::spec_new(seeded_state(seed))
    } else {
        let before = spec_dealt(seed, (count - 1) as nat);
        Bag::spec_get_next(before.0, before.1)
    }
}

/// The first `count` pieces that a bag hands out whose generator was seeded
/// with `seed`.
pub open spec fn spec_draw_sequence(seed: u64, count: nat) -> Seq<TetrominoVariant> {
    Seq::new(count, |k: int| spec_dealt(seed, k as nat).0.first())
}

/// The first `count` pieces that a bag hands out whose generator was seeded
/// with `seed`. They follow from the seed alone: whoever deals from the same
/// seed deals the same pieces. And they come in rounds: the first seven, the
/// second seven and so on hold each variant once.
pub fn draw_sequence(seed: u64, count: usize) -> (pieces: Vec<TetrominoVariant>)
    ensures
        pieces@ == spec_draw_sequence(seed, count as nat),
        forall|j: int|
            0 <= j && 7 * j + 7 <= count ==> is_round(#[trigger] pieces@.subrange(7 * j, 7 * j + 7)),
{
    let mut generator = generator_from_seed(seed);
    let mut bag = Bag::new(&mut generator);
    let mut pieces: Vec<TetrominoVariant> = Vec::new();
    let mut k: usize = 0;
    let mut drawn: usize = 0;
    proof {
        assert(pieces@.subrange(0, 0) + bag@.upcoming().take(7) =~= bag@.upcoming());
    }
    while k < count
        invariant
            k <= count,
            drawn < 7,
            drawn <= k,
            (k - drawn) % 7 == 0,
            pieces@.len() == k,
            bag@.wf(),
            bag@.rest.len() == (if drawn <= 3 {
                4 - drawn
            } else {
                11 - drawn
            }),
            is_round(pieces@.subrange(k - drawn, k as int) + bag@.upcoming().take(7 - drawn)),
            forall|j: int|
                0 <= j && 7 * j + 7 <= k - drawn ==> is_round(
                    #[trigger] pieces@.subrange(7 * j, 7 * j + 7),
                ),
            (bag@, generator_state(generator)) == spec_dealt(seed, k as nat),
            pieces@ == spec_draw_sequence(seed, k as nat),
        decreases count - k,
    {
        let ghost before = bag@;
        let ghost dealt = pieces@;
        let piece = bag.get_next(&mut generator);
        pieces.push(piece.variant);
        k += 1;
        proof {
            assert(pieces@ =~= spec_draw_sequence(seed, k as nat));
            let ahead = before.upcoming();
            let start = k - 1 - drawn;
            assert(piece.variant == ahead[0]);
            assert(bag@.upcoming().take(6 - drawn) =~= ahead.take(7 - drawn).skip(1));
            assert(pieces@.subrange(start, k as int) + bag@.upcoming().take(6 - drawn)
                =~= dealt.subrange(start, k - 1) + ahead.take(7 - drawn));
            assert forall|j: int| 0 <= j && 7 * j + 7 <= start implies is_round(
                #[trigger] pieces@.subrange(7 * j, 7 * j + 7),
            ) by {
                assert(pieces@.subrange(7 * j, 7 * j + 7) =~= dealt.subrange(7 * j, 7 * j + 7));
            }
        }
        if drawn == 6 {
            proof {
                let start = k - 7;
                assert(bag@.upcoming().take(0) =~= Seq::<TetrominoVariant>::empty());
                assert(pieces@.subrange(start, k as int) + bag@.upcoming().take(0)
                    =~= pieces@.subrange(start, k as int));
                assert(pieces@.subrange(k as int, k as int) + bag@.upcoming().take(7)
                    =~= bag@.upcoming());
                assert forall|j: int| 0 <= j && 7 * j + 7 <= k implies is_round(
                    #[trigger] pieces@.subrange(7 * j, 7 * j + 7),
                ) by {
                    if 7 * j + 7 > start {
                        assert(7 * j == start);
                    }
                }
            }
            drawn = 0;
        } else {
            drawn += 1;
        }
    }
    pieces
}

} // verus!
