//! Game reviews: one review per user and game, rated 1 to 5, with a
//! per-game review count, rating total and running average.
use vstd::prelude::*;
use crate::common::{Principal, copy_bytes};
use crate::store::KeyedStore;

verus! {

/// Errors of the review contract.
#[derive(Clone, Copy, PartialEq, Eq, Structural, Debug)]
pub enum GameReviewError {
    /// The contract already has an admin.
    AlreadyInitialized,
    /// The caller may not perform this operation.
    Unauthorized,
    /// The rating is outside 1..=5, or the game's counters are full.
    InvalidInput,
    /// No such review.
    ReviewNotFound,
    /// The user has already reviewed this game.
    UserHasReviewed,
}

/// A review of one game by one user.
pub struct Review {
    pub id: u32,
    pub reviewer: Principal,
    pub rating: u32,
    pub comment: Vec<u8>,
    pub timestamp: u64,
}

pub struct ReviewModel {
    pub id: u32,
    pub reviewer: Principal,
    pub rating: u32,
    pub comment: Seq<u8>,
    pub timestamp: u64,
}

impl View for Review {
    type V = ReviewModel;

    open spec fn view(&self) -> ReviewModel {
        ReviewModel {
            id: self.id,
            reviewer: self.reviewer,
            rating: self.rating,
            comment: self.comment@,
            timestamp: self.timestamp,
        }
    }
}

impl Review {
    pub fn copy(&self) -> (r: Review)
        ensures
            r@ == self@,
    {
        Review {
            id: self.id,
            reviewer: self.reviewer,
            rating: self.rating,
            comment: copy_bytes(&self.comment),
            timestamp: self.timestamp,
        }
    }
}

/// A per-game counter; a game never written reads as zero.
pub open spec fn counter(m: Map<u32, u32>, game_id: u32) -> u32 {
    if m.contains_key(game_id) {
        m[game_id]
    } else {
        0
    }
}

/// The running average after one more rating: computed from the previous,
/// already truncated, average rather than from the exact total.
pub open spec fn average_after_add(old_average: int, old_count: int, rating: int) -> int {
    (old_average * old_count + rating) / (old_count + 1)
}

/// The average after a review is removed: the remaining total over the
/// remaining count, or zero when no review is left.
pub open spec fn average_after_delete(total: int, rating: int, count: int) -> int {
    if count > 1 {
        (total - rating) / (count - 1)
    } else {
        0
    }
}

/// Reviews of `game_id` stored under ids `lo..=hi`, in id order, skipping
/// ids with no review.
pub open spec fn reviews_in_range(
    m: Map<(u32, u32), ReviewModel>,
    game_id: u32,
    lo: int,
    hi: int,
) -> Seq<ReviewModel>
    decreases hi - lo + 1,
{
    if hi < lo || hi < 0 || hi > u32::MAX {
        Seq::empty()
    } else {
        let prev = reviews_in_range(m, game_id, lo, hi - 1);
        if m.contains_key((game_id, hi as u32)) {
            prev.push(m[(game_id, hi as u32)])
        } else {
            prev
        }
    }
}

/// The review contract's records and counters.
pub struct GameReviewStorage {
    pub admin: Option<Principal>,
    /// Each game's reviews, keyed by game and author.
    pub reviews: KeyedStore<(u32, Principal), Review>,
    /// Each game's reviews, keyed by game and review number.
    pub indexed_reviews: KeyedStore<(u32, u32), Review>,
    pub review_counts: KeyedStore<u32, u32>,
    pub total_ratings: KeyedStore<u32, u32>,
    pub average_ratings: KeyedStore<u32, u32>,
}

impl GameReviewStorage {
    pub open spec fn wf(&self) -> bool {
        &&& self.reviews.wf()
        &&& self.indexed_reviews.wf()
        &&& self.review_counts.wf()
        &&& self.total_ratings.wf()
        &&& self.average_ratings.wf()
    }

    pub open spec fn count_of(&self, game_id: u32) -> u32 {
        counter(self.review_counts@, game_id)
    }

    pub open spec fn total_of(&self, game_id: u32) -> u32 {
        counter(self.total_ratings@, game_id)
    }

    pub open spec fn average_of(&self, game_id: u32) -> u32 {
        counter(self.average_ratings@, game_id)
    }

    pub fn new() -> (r: GameReviewStorage)
        ensures
            r.wf(),
            r.admin is None,
            r.reviews@ == Map::<(u32, Principal), ReviewModel>::empty(),
            r.indexed_reviews@ == Map::<(u32, u32), ReviewModel>::empty(),
            r.review_counts@ == Map::<u32, u32>::empty(),
            r.total_ratings@ == Map::<u32, u32>::empty(),
            r.average_ratings@ == Map::<u32, u32>::empty(),
    {
        GameReviewStorage {
            admin: None,
            reviews: KeyedStore::new(),
            indexed_reviews: KeyedStore::new(),
            review_counts: KeyedStore::new(),
            total_ratings: KeyedStore::new(),
            average_ratings: KeyedStore::new(),
        }
    }

    pub fn get_admin(&self) -> (r: Option<Principal>)
        ensures
            r == self.admin,
    {
        self.admin
    }

    pub fn set_admin(&mut self, admin: Principal)
        ensures
            *final(self) == (GameReviewStorage { admin: Some(admin), ..*old(self) }),
    {
        self.admin = Some(admin);
    }

    pub fn get_review_count(&self, game_id: u32) -> (r: u32)
        requires
            self.wf(),
        ensures
            r == self.count_of(game_id),
    {
        match self.review_counts.get(&game_id) {
            Some(c) => *c,
            None => 0,
        }
    }

    pub fn get_total_ratings(&self, game_id: u32) -> (r: u32)
        requires
            self.wf(),
        ensures
            r == self.total_of(game_id),
    {
        match self.total_ratings.get(&game_id) {
            Some(c) => *c,
            None => 0,
        }
    }

    pub fn get_average_rating(&self, game_id: u32) -> (r: u32)
        requires
            self.wf(),
        ensures
            r == self.average_of(game_id),
    {
        match self.average_ratings.get(&game_id) {
            Some(c) => *c,
            None => 0,
        }
    }
}

/// The review contract.
pub struct GameReview {
    pub storage: GameReviewStorage,
}

impl GameReview {
    pub open spec fn wf(&self) -> bool {
        self.storage.wf()
    }

    pub open spec fn is_admin(&self, caller: Principal) -> bool {
        self.storage.admin == Some(caller)
    }

    pub open spec fn has_reviewed_spec(&self, user: Principal, game_id: u32) -> bool {
        self.storage.reviews@.contains_key((game_id, user))
    }

    /// A contract with no admin and no reviews.
    pub fn new() -> (r: GameReview)
        ensures
            r.wf(),
            r.storage.admin is None,
            r.storage.reviews@ == Map::<(u32, Principal), ReviewModel>::empty(),
            r.storage.indexed_reviews@ == Map::<(u32, u32), ReviewModel>::empty(),
            forall|g: u32|
                r.storage.count_of(g) == 0 && r.storage.total_of(g) == 0 && r.storage.average_of(g)
                    == 0,
    {
        GameReview { storage: GameReviewStorage::new() }
    }

    /// Sets the first admin; fails once an admin exists.
    pub fn initialize(&mut self, admin: Principal) -> (r: Result<(), GameReviewError>)
        requires
            old(self).wf(),
        ensures
            final(self).wf(),
            old(self).storage.admin is Some ==> r == Err::<(), _>(GameReviewError::AlreadyInitialized)
                && *final(self) == *old(self),
            old(self).storage.admin is None ==> r is Ok && final(self).storage == (
            GameReviewStorage { admin: Some(admin), ..old(self).storage }),
    {
        if self.storage.get_admin().is_some() {
            return Err(GameReviewError::AlreadyInitialized);
        }
        self.storage.set_admin(admin);
        Ok(())
    }

    /// The admin, which every admin-only operation must be authorized by.
    fn require_admin(&self, caller: Principal) -> (r: Result<(), GameReviewError>)
        ensures
            r is Ok <==> self.is_admin(caller),
            r is Err ==> r == Err::<(), _>(GameReviewError::Unauthorized),
    {
        match self.storage.get_admin() {
            Some(a) => if a == caller {
                Ok(())
            } else {
                Err(GameReviewError::Unauthorized)
            },
            None => Err(GameReviewError::Unauthorized),
        }
    }

    /// Hands the admin role to `new_admin`; only the current admin may.
    pub fn change_admin(&mut self, caller: Principal, new_admin: Principal) -> (r: Result<
        (),
        GameReviewError,
    >)
        requires
            old(self).wf(),
        ensures
            final(self).wf(),
            !old(self).is_admin(caller) ==> r == Err::<(), _>(GameReviewError::Unauthorized)
                && *final(self) == *old(self),
            old(self).is_admin(caller) ==> r is Ok && final(self).storage == (GameReviewStorage {
                admin: Some(new_admin),
                ..old(self).storage
            }),
    {
        self.require_admin(caller)?;
        self.storage.set_admin(new_admin);
        Ok(())
    }

    /// The admin; an uninitialized contract reports `Unauthorized`.
    pub fn get_admin(&self) -> (r: Result<Principal, GameReviewError>)
        ensures
            match self.storage.admin {
                Some(a) => r == Ok::<Principal, GameReviewError>(a),
                None => r == Err::<Principal, _>(GameReviewError::Unauthorized),
            },
    {
        match self.storage.get_admin() {
            Some(a) => Ok(a),
            None => Err(GameReviewError::Unauthorized),
        }
    }

    /// Records `user`'s review of `game_id`, numbered after the game's
    /// current count, and updates the game's count, total and average.
    pub fn add_review(
        &mut self,
        user: Principal,
        game_id: u32,
        rating: u32,
        comment: Vec<u8>,
        now: u64,
    ) -> (r: Result<(), GameReviewError>)
        requires
            old(self).wf(),
        ensures
            final(self).wf(),
            r is Err ==> *final(self) == *old(self),
            r == Err::<(), _>(GameReviewError::UserHasReviewed) <==> 1 <= rating <= 5
                && old(self).has_reviewed_spec(user, game_id),
            r == Err::<(), _>(GameReviewError::InvalidInput) <==> !(1 <= rating <= 5) || (
            !old(self).has_reviewed_spec(user, game_id) && (old(self).storage.count_of(game_id)
                == u32::MAX || old(self).storage.total_of(game_id) + rating > u32::MAX)),
            r is Ok <==> 1 <= rating <= 5 && !old(self).has_reviewed_spec(user, game_id) && old(
                self,
            ).storage.count_of(game_id) < u32::MAX && old(self).storage.total_of(game_id) + rating
                <= u32::MAX,
            r is Ok ==> {
                let count = old(self).storage.count_of(game_id);
                let review = ReviewModel {
                    id: (count + 1) as u32,
                    reviewer: user,
                    rating,
                    comment: comment@,
                    timestamp: now,
                };
                &&& final(self).storage.reviews@ == old(self).storage.reviews@.insert(
                    (game_id, user),
                    review,
                )
                &&& final(self).storage.indexed_reviews@ == old(
                    self,
                ).storage.indexed_reviews@.insert((game_id, (count + 1) as u32), review)
                &&& final(self).storage.review_counts@ == old(self).storage.review_counts@.insert(
                    game_id,
                    (count + 1) as u32,
                )
                &&& final(self).storage.total_ratings@ == old(self).storage.total_ratings@.insert(
                    game_id,
                    (old(self).storage.total_of(game_id) + rating) as u32,
                )
                &&& final(self).storage.average_ratings@ == old(
                    self,
                ).storage.average_ratings@.insert(
                    game_id,
                    average_after_add(
                        old(self).storage.average_of(game_id) as int,
                        count as int,
                        rating as int,
                    ) as u32,
                )
                &&& final(self).storage.admin == old(self).storage.admin
            },
    {
        if rating < 1 || rating > 5 {
            return Err(GameReviewError::InvalidInput);
        }
        if self.has_reviewed(user, game_id) {
            return Err(GameReviewError::UserHasReviewed);
        }
        let count = self.storage.get_review_count(game_id);
        let total = self.storage.get_total_ratings(game_id);
        if count == u32::MAX || total > u32::MAX - rating {
            return Err(GameReviewError::InvalidInput);
        }
        let review_id = count + 1;
        let average = self.storage.get_average_rating(game_id);
        assert((average as int) * (count as int) <= (u32::MAX as int) * (u32::MAX as int))
            by (nonlinear_arith)
            requires
                0 <= average <= u32::MAX,
                0 <= count <= u32::MAX,
        ;
        let sum: u64 = (average as u64) * (count as u64) + (rating as u64);
        let new_average_wide: u64 = sum / (review_id as u64);
        proof {
            let a = average as int;
            let c = count as int;
            let rt = rating as int;
            assert(a * c <= (u32::MAX as int) * c) by (nonlinear_arith)
                requires
                    0 <= a <= u32::MAX,
                    0 <= c,
            ;
            assert((u32::MAX as int) * c + rt <= (u32::MAX as int) * (c + 1)) by (nonlinear_arith)
                requires
                    0 <= c,
                    rt <= u32::MAX,
            ;
            assert((a * c + rt) / (c + 1) <= u32::MAX) by (nonlinear_arith)
                requires
                    a * c + rt <= (u32::MAX as int) * (c + 1),
                    0 <= c,
                    0 <= a * c + rt,
            ;
        }
        let new_average = new_average_wide as u32;
        let review = Review { id: review_id, reviewer: user, rating, comment, timestamp: now };
        let indexed = review.copy();
        self.storage.reviews.set((game_id, user), review);
        self.storage.indexed_reviews.set((game_id, review_id), indexed);
        self.storage.review_counts.set(game_id, review_id);
        self.storage.average_ratings.set(game_id, new_average);
        self.storage.total_ratings.set(game_id, total + rating);
        Ok(())
    }

    /// Removes a review by game and review id and rolls the game's counters
    /// back; only the admin may.
    pub fn delete_review(&mut self, caller: Principal, game_id: u32, review_id: u32) -> (r: Result<
        (),
        GameReviewError,
    >)
        requires
            old(self).wf(),
        ensures
            final(self).wf(),
            r is Err ==> *final(self) == *old(self),
            r == Err::<(), _>(GameReviewError::Unauthorized) <==> !old(self).is_admin(caller),
            r == Err::<(), _>(GameReviewError::ReviewNotFound) <==> old(self).is_admin(caller)
                && !old(self).storage.indexed_reviews@.contains_key((game_id, review_id)),
            r is Ok <==> old(self).is_admin(caller) && old(self).storage.indexed_reviews@.contains_key(
                (game_id, review_id),
            ),
            r is Ok ==> {
                let review = old(self).storage.indexed_reviews@[(game_id, review_id)];
                let count = old(self).storage.count_of(game_id);
                let total = old(self).storage.total_of(game_id);
                &&& final(self).storage.reviews@ == old(self).storage.reviews@.remove(
                    (game_id, review.reviewer),
                )
                &&& final(self).storage.indexed_reviews@ == old(
                    self,
                ).storage.indexed_reviews@.remove((game_id, review_id))
                &&& final(self).storage.count_of(game_id) == if count > 0 {
                    count - 1
                } else {
                    0
                }
                &&& total >= review.rating ==> final(self).storage.total_of(game_id) == total
                    - review.rating && final(self).storage.average_of(game_id)
                    == average_after_delete(total as int, review.rating as int, count as int)
                &&& total < review.rating ==> final(self).storage.total_of(game_id) == total
                    && final(self).storage.average_of(game_id) == old(self).storage.average_of(
                    game_id,
                )
                &&& forall|g: u32|
                    g != game_id ==> final(self).storage.count_of(g) == old(self).storage.count_of(g)
                        && final(self).storage.total_of(g) == old(self).storage.total_of(g)
                        && final(self).storage.average_of(g) == old(self).storage.average_of(g)
                &&& final(self).storage.admin == old(self).storage.admin
            },
    {
        self.require_admin(caller)?;
        let (reviewer, rating) = match self.storage.indexed_reviews.get(&(game_id, review_id)) {
            Some(review) => (review.reviewer, review.rating),
            None => {
                return Err(GameReviewError::ReviewNotFound);
            },
        };
        let _ = self.storage.reviews.take(&(game_id, reviewer));
        let _ = self.storage.indexed_reviews.take(&(game_id, review_id));
        let count = self.storage.get_review_count(game_id);
        if count > 0 {
            self.storage.review_counts.set(game_id, count - 1);
        }
        let total = self.storage.get_total_ratings(game_id);
        if total >= rating {
            let new_total = total - rating;
            self.storage.total_ratings.set(game_id, new_total);
            if count > 1 {
                self.storage.average_ratings.set(game_id, new_total / (count - 1));
            } else {
                self.storage.average_ratings.set(game_id, 0);
            }
        }
        Ok(())
    }

    /// `user`'s review of `game_id`.
    pub fn get_review(&self, game_id: u32, user: Principal) -> (r: Result<Review, GameReviewError>)
        requires
            self.wf(),
        ensures
            match r {
                Ok(v) => self.has_reviewed_spec(user, game_id) && v@
                    == self.storage.reviews@[(game_id, user)],
                Err(e) => e == GameReviewError::ReviewNotFound && !self.has_reviewed_spec(
                    user,
                    game_id,
                ),
            },
    {
        match self.storage.reviews.get(&(game_id, user)) {
            Some(v) => Ok(v.copy()),
            None => Err(GameReviewError::ReviewNotFound),
        }
    }

    /// The reviews of `game_id` whose ids fall on one page: ids
    /// `skip + 1 ..= min(skip + limit, count)`, skipping deleted ones.
    pub fn get_reviews(&self, game_id: u32, skip: u32, limit: u32) -> (r: Vec<Review>)
        requires
            self.wf(),
        ensures
            r@.map_values(|v: Review| v@) == reviews_in_range(
                self.storage.indexed_reviews@,
                game_id,
                skip + 1,
                if skip + limit < self.storage.count_of(game_id) {
                    skip + limit
                } else {
                    self.storage.count_of(game_id) as int
                },
            ),
    {
        let mut r: Vec<Review> = Vec::new();
        let total = self.storage.get_review_count(game_id) as u64;
        let start: u64 = skip as u64 + 1;
        let end: u64 = if skip as u64 + (limit as u64) < total {
            skip as u64 + limit as u64
        } else {
            total
        };
        if end < start {
            return r;
        }
        let mut i: u64 = start;
        while i <= end
            invariant
                self.wf(),
                start == skip + 1,
                end <= total == self.storage.count_of(game_id) <= u32::MAX,
                start <= i <= end + 1,
                r@.map_values(|v: Review| v@) == reviews_in_range(
                    self.storage.indexed_reviews@,
                    game_id,
                    start as int,
                    i - 1,
                ),
            decreases end + 1 - i,
        {
            let ghost before = r@;
            match self.storage.indexed_reviews.get(&(game_id, i as u32)) {
                Some(v) => {
                    let c = v.copy();
                    r.push(c);
                    assert(r@.map_values(|v: Review| v@) =~= before.map_values(|v: Review| v@).push(c@));
                },
                None => {},
            }
            i = i + 1;
        }
        r
    }

    pub fn has_reviewed(&self, user: Principal, game_id: u32) -> (r: bool)
        requires
            self.wf(),
        ensures
            r == self.has_reviewed_spec(user, game_id),
    {
        self.storage.reviews.contains(&(game_id, user))
    }

    /// The number of reviews that `game_id` has (zero if none).
    pub fn get_game_review_count(&self, game_id: u32) -> (r: u32)
        requires
            self.wf(),
        ensures
            r == self.storage.count_of(game_id),
    {
        self.storage.get_review_count(game_id)
    }

    /// The average rating of `game_id` (zero if it has no review).
    pub fn get_game_rating(&self, game_id: u32) -> (r: u32)
        requires
            self.wf(),
        ensures
            r == self.storage.average_of(game_id),
    {
        self.storage.get_average_rating(game_id)
    }
}

} // verus!
