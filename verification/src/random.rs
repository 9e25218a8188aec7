//! The source of piece kinds: a bag of the seven kinds that is shuffled,
//! dealt from the front, and shuffled anew when it is spent.

use vstd::prelude::*;
use vstd::multiset::Multiset;
use vstd::seq_lib::{lemma_multiset_commutative, to_multiset_build};
use crate::piece::Piece;
use rand::rngs::StdRng;
use rand::seq::SliceRandom;

verus! {

/// A source of piece kinds. Nothing is asked of it but a kind at each call;
/// which kinds come, and in what order, is for the implementation to say.
pub trait Randomizer {
    /// The kind of the next piece.
    fn get_next_piece(&mut self) -> Piece;
}

/// Number of pieces in a bag: one of each kind.
pub const BAG_SIZE: usize = 7;

/// The seven kinds in the order in which a bag holds them before it is
/// shuffled.
pub open spec fn all_kinds() -> Seq<Piece> {
    seq![Piece::I, Piece::J, Piece::L, Piece::O, Piece::S, Piece::T, Piece::Z]
}

/// Whether `bag` holds seven pieces, each kind exactly once.
pub open spec fn is_full_bag(bag: Seq<Piece>) -> bool {
    bag.len() == BAG_SIZE && forall|p: Piece| #[trigger] bag.to_multiset().count(p) == 1
}

/// The `k`-th run of seven among the pieces `dealt`, counted from 0.
pub open spec fn bag_window(dealt: Seq<Piece>, k: int) -> Seq<Piece> {
    dealt.subrange(BAG_SIZE * k, BAG_SIZE * k + BAG_SIZE)
}

/// Whether every complete run of seven in `dealt` that starts at a multiple
/// of seven holds each kind exactly once.
pub open spec fn dealt_in_whole_bags(dealt: Seq<Piece>) -> bool {
    forall|k: int|
        0 <= k && BAG_SIZE * k + BAG_SIZE <= dealt.len() ==> is_full_bag(
            #[trigger] bag_window(dealt, k),
        )
}

/// The pieces that `dealt` holds after its last complete run of seven: what
/// the bag in use has dealt.
pub open spec fn open_bag(dealt: Seq<Piece>) -> Seq<Piece> {
    dealt.subrange(BAG_SIZE * (dealt.len() / BAG_SIZE as nat), dealt.len() as int)
}

/// Whether no kind comes twice in `pieces`.
pub open spec fn no_kind_twice(pieces: Seq<Piece>) -> bool {
    forall|p: Piece| #[trigger] pieces.to_multiset().count(p) <= 1
}

/// The seven kinds in their fixed order are a full bag.
pub proof fn lemma_all_kinds_is_full_bag()
    ensures
        is_full_bag(all_kinds()),
{
    let e = Seq::<Piece>::empty();
    let s1 = e.push(Piece::I);
    let s2 = s1.push(Piece::J);
    let s3 = s2.push(Piece::L);
    let s4 = s3.push(Piece::O);
    let s5 = s4.push(Piece::S);
    let s6 = s5.push(Piece::T);
    let s7 = s6.push(Piece::Z);
    assert(s7 =~= all_kinds());
    assert(e.to_multiset() =~= Multiset::<Piece>::empty()) by {
        e.to_multiset_ensures();
        assert(e.to_multiset().len() == 0);
        vstd::multiset::lemma_multiset_empty_len(e.to_multiset());
    }
    to_multiset_build(e, Piece::I);
    to_multiset_build(s1, Piece::J);
    to_multiset_build(s2, Piece::L);
    to_multiset_build(s3, Piece::O);
    to_multiset_build(s4, Piece::S);
    to_multiset_build(s5, Piece::T);
    to_multiset_build(s6, Piece::Z);
    assert forall|p: Piece| #[trigger] s7.to_multiset().count(p) == 1 by {}
}

/// No kind comes twice among the first pieces of a full bag.
proof fn lemma_part_of_full_bag(bag: Seq<Piece>, upto: int)
    requires
        is_full_bag(bag),
        0 <= upto <= bag.len(),
    ensures
        no_kind_twice(bag.subrange(0, upto)),
{
    let head = bag.subrange(0, upto);
    let tail = bag.subrange(upto, bag.len() as int);
    assert(head + tail =~= bag);
    lemma_multiset_commutative(head, tail);
    assert forall|p: Piece| #[trigger] head.to_multiset().count(p) <= 1 by {
        assert(bag.to_multiset().count(p) == 1);
    }
}

/// Shuffles a bag in place with `rand::seq::SliceRandom::shuffle`.
///
/// Believed, not proved: the bag holds the same pieces afterwards. The
/// shuffle of `rand` walks the slice from its end and swaps each element
/// with one at an index that it draws from the generator, so it only
/// reorders. Which order comes out depends on the generator, and nothing is
/// said of it.
#[verifier::external_body]
fn shuffle_bag(bag: &mut [Piece; 7], rng: &mut StdRng)
    ensures
        final(bag)@.to_multiset() == old(bag)@.to_multiset(),
{
    bag.shuffle(rng)
}

/// `rand::rngs::StdRng`, the generator that feeds the shuffle. It is
/// carried along and handed to `rand`; nothing is said of what it holds.
#[verifier::external_type_specification]
#[verifier::external_body]
pub struct ExStdRng(StdRng);

/// The bag in use with its read cursor, and the pieces that earlier bags
/// have dealt.
struct Deck {
    bag: [Piece; 7],
    index: usize,
    earlier: Ghost<Seq<Piece>>,
}

impl Deck {
    #[verifier::type_invariant]
    spec fn well_formed(self) -> bool {
        &&& self.index <= BAG_SIZE
        &&& is_full_bag(self.bag@)
        &&& self.earlier@.len() % BAG_SIZE as nat == 0
        &&& dealt_in_whole_bags(self.earlier@)
    }

    closed spec fn dealt(self) -> Seq<Piece> {
        self.earlier@ + self.bag@.subrange(0, self.index as int)
    }

    closed spec fn cursor(self) -> nat {
        self.index as nat
    }

    /// A deck that has dealt nothing and starts with `bag`.
    fn first(bag: [Piece; 7]) -> (d: Deck)
        requires
            is_full_bag(bag@),
        ensures
            d.dealt() == Seq::<Piece>::empty(),
            d.cursor() == 0,
    {
        let d = Deck { bag, index: 0, earlier: Ghost(Seq::empty()) };
        assert(d.dealt() =~= Seq::<Piece>::empty());
        d
    }

    fn spent(&self) -> (s: bool)
        ensures
            s == (self.cursor() == BAG_SIZE),
            self.cursor() <= BAG_SIZE,
    {
        proof {
            use_type_invariant(self);
        }
        self.index == BAG_SIZE
    }

    /// Replaces the spent bag by `bag`.
    fn refill(&mut self, bag: [Piece; 7])
        requires
            old(self).cursor() == BAG_SIZE,
            is_full_bag(bag@),
        ensures
            final(self).dealt() == old(self).dealt(),
            final(self).cursor() == 0,
    {
        proof {
            use_type_invariant(&*self);
        }
        let ghost before = self.earlier@;
        let ghost spent = self.bag@;
        let ghost all = before + spent;
        proof {
            assert(spent.subrange(0, BAG_SIZE as int) =~= spent);
            assert forall|k: int|
                0 <= k && BAG_SIZE * k + BAG_SIZE <= all.len() implies is_full_bag(
                #[trigger] bag_window(all, k),
            ) by {
                if BAG_SIZE * k + BAG_SIZE <= before.len() {
                    assert(bag_window(all, k) =~= bag_window(before, k));
                } else {
                    assert(bag_window(all, k) =~= spent);
                }
            }
        }
        *self = Deck { bag, index: 0, earlier: Ghost(all) };
        assert(self.dealt() =~= old(self).dealt());
    }

    /// Deals the piece under the cursor.
    fn take(&mut self) -> (p: Piece)
        requires
            old(self).cursor() < BAG_SIZE,
        ensures
            final(self).dealt() == old(self).dealt().push(p),
            final(self).cursor() == old(self).cursor() + 1,
            dealt_in_whole_bags(final(self).dealt()),
            no_kind_twice(open_bag(final(self).dealt())),
    {
        proof {
            use_type_invariant(&*self);
        }
        let p = self.bag[self.index];
        self.index += 1;
        proof {
            let before = self.earlier@;
            let now = self.dealt();
            assert(now =~= old(self).dealt().push(p));
            assert forall|k: int|
                0 <= k && BAG_SIZE * k + BAG_SIZE <= now.len() implies is_full_bag(
                #[trigger] bag_window(now, k),
            ) by {
                if BAG_SIZE * k + BAG_SIZE <= before.len() {
                    assert(bag_window(now, k) =~= bag_window(before, k));
                } else {
                    assert(bag_window(now, k) =~= self.bag@);
                }
            }
            if self.index < BAG_SIZE {
                assert(open_bag(now) =~= self.bag@.subrange(0, self.index as int));
            } else {
                assert(open_bag(now) =~= self.bag@.subrange(0, 0));
            }
            lemma_part_of_full_bag(self.bag@, self.index as int);
            lemma_part_of_full_bag(self.bag@, 0);
        }
        p
    }
}

/// The seven-bag generator: it deals each bag of seven in a shuffled order
/// and shuffles a new bag when the last piece of one has been dealt.
pub struct RandomGenerator {
    deck: Deck,
    rng: StdRng,
}

/// A freshly shuffled bag: the seven kinds in their fixed order, shuffled.
fn shuffled_bag(rng: &mut StdRng) -> (bag: [Piece; 7])
    ensures
        is_full_bag(bag@),
{
    let mut bag: [Piece; 7] = [
        Piece::I,
        Piece::J,
        Piece::L,
        Piece::O,
        Piece::S,
        Piece::T,
        Piece::Z,
    ];
    proof {
        assert(bag@ =~= all_kinds());
        lemma_all_kinds_is_full_bag();
    }
    shuffle_bag(&mut bag, rng);
    bag
}

impl RandomGenerator {
    /// Every piece that the generator has dealt since it was made, in
    /// order.
    pub closed spec fn dealt(&self) -> Seq<Piece> {
        self.deck.dealt()
    }

    /// Number of pieces that the bag in use has dealt.
    pub closed spec fn cursor(&self) -> nat {
        self.deck.cursor()
    }

    fn generate_bag(&mut self)
        requires
            old(self).cursor() == BAG_SIZE,
        ensures
            final(self).dealt() == old(self).dealt(),
            final(self).cursor() == 0,
    {
        let bag = shuffled_bag(&mut self.rng);
        self.deck.refill(bag);
    }

    /// A generator that draws its shuffles from `rng`. Its first bag is
    /// shuffled at once.
    pub fn new(rng: StdRng) -> (g: Self)
        ensures
            g.dealt() == Seq::<Piece>::empty(),
            g.cursor() == 0,
    {
        let mut rng = rng;
        let bag = shuffled_bag(&mut rng);
        RandomGenerator { deck: Deck::first(bag), rng }
    }
}

impl Randomizer for RandomGenerator {
    /// Deals the next piece. Every run of seven pieces that starts at a
    /// multiple of seven, counted from the first piece dealt, holds each
    /// kind exactly once, and no kind has come twice since the last such
    /// run. Which of the kinds that are left comes next is up to the
    /// shuffle.
    fn get_next_piece(&mut self) -> (p: Piece)
        ensures
            final(self).dealt() == old(self).dealt().push(p),
            dealt_in_whole_bags(final(self).dealt()),
            no_kind_twice(open_bag(final(self).dealt())),
            1 <= final(self).cursor() <= BAG_SIZE,
            final(self).cursor() == if old(self).cursor() == BAG_SIZE {
                1
            } else {
                old(self).cursor() + 1
            },
    {
        if self.deck.spent() {
            self.generate_bag();
        }
        self.deck.take()
    }
}

} // verus!
