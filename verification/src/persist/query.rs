//! The cache-aside query: look in the cache, fall back to the store, and
//! put what the store gave into the cache.

use vstd::prelude::*;

verus! {

/// What a cache-aside query does next.
#[derive(Debug, PartialEq, Eq)]
pub enum QueryStep<T> {
    /// Look the key up in the cache.
    Read,
    /// Look the key up in the store.
    Load,
    /// Write what the store gave into the cache.
    Populate(T),
    /// Return: the value, or nothing where the store has none.
    Done(Option<T>),
}

/// What the step before gave.
#[derive(Debug, PartialEq, Eq)]
pub enum QueryEvent<T> {
    /// The cache was read.
    ReadGave(Option<T>),
    /// The store was read.
    LoadGave(Option<T>),
    /// The cache was written, and this is the value as it was written.
    PopulateGave(T),
}

/// The step that follows an event. A value found in the cache is returned
/// as it is, and the store is not asked. A key that the store does not have
/// is not written to the cache.
pub open spec fn step_after<T>(event: QueryEvent<T>) -> QueryStep<T> {
    match event {
        QueryEvent::ReadGave(Some(value)) => QueryStep::Done(Some(value)),
        QueryEvent::ReadGave(None) => QueryStep::Load,
        QueryEvent::LoadGave(Some(value)) => QueryStep::Populate(value),
        QueryEvent::LoadGave(None) => QueryStep::Done(None),
        QueryEvent::PopulateGave(value) => QueryStep::Done(Some(value)),
    }
}

/// The first step of every query.
pub fn first_step<T>() -> (step: QueryStep<T>)
    ensures
        step == QueryStep::<T>::Read,
{
    QueryStep::Read
}

/// The step that follows an event.
pub fn next_step<T>(event: QueryEvent<T>) -> (step: QueryStep<T>)
    ensures
        step == step_after(event),
{
    match event {
        QueryEvent::ReadGave(Some(value)) => QueryStep::Done(Some(value)),
        QueryEvent::ReadGave(None) => QueryStep::Load,
        QueryEvent::LoadGave(Some(value)) => QueryStep::Populate(value),
        QueryEvent::LoadGave(None) => QueryStep::Done(None),
        QueryEvent::PopulateGave(value) => QueryStep::Done(Some(value)),
    }
}

/// The steps of a query from its first to its last, where the cache gives
/// `hit`, the store would give `found`, and writing to the cache would
/// give `written`.
pub open spec fn steps<T>(hit: Option<T>, found: Option<T>, written: T) -> Seq<QueryStep<T>> {
    match step_after(QueryEvent::ReadGave(hit)) {
        QueryStep::Load => match step_after(QueryEvent::LoadGave(found)) {
            QueryStep::Populate(value) => seq![
                QueryStep::Read,
                QueryStep::Load,
                QueryStep::Populate(value),
                step_after(QueryEvent::PopulateGave(written)),
            ],
            last => seq![QueryStep::Read, QueryStep::Load, last],
        },
        last => seq![QueryStep::Read, last],
    }
}

/// A value that is in the cache is returned without a look at the store and
/// without a write to the cache.
pub proof fn law_hit_asks_nothing_else<T>(value: T, found: Option<T>, written: T)
    ensures
        steps(Some(value), found, written) == seq![
            QueryStep::Read,
            QueryStep::Done(Some(value)),
        ],
        forall|i: int|
            0 <= i < steps(Some(value), found, written).len() ==> !(#[trigger] steps(
                Some(value),
                found,
                written,
            )[i] is Load) && !(steps(Some(value), found, written)[i] is Populate),
{
}

/// A key that neither the cache nor the store has gives nothing, and
/// nothing is written to the cache.
pub proof fn law_absent_is_not_cached<T>(written: T)
    ensures
        steps(None, None, written) == seq![
            QueryStep::Read,
            QueryStep::Load,
            QueryStep::<T>::Done(None),
        ],
        forall|i: int|
            0 <= i < steps(None, None, written).len() ==> !(#[trigger] steps(
                None,
                None,
                written,
            )[i] is Populate),
{
}

/// A value that only the store has is written to the cache exactly once,
/// and what is returned is the value as it was written.
pub proof fn law_found_is_cached_once<T>(value: T, written: T)
    ensures
        steps(None, Some(value), written) == seq![
            QueryStep::Read,
            QueryStep::Load,
            QueryStep::Populate(value),
            QueryStep::Done(Some(written)),
        ],
        forall|i: int|
            0 <= i < steps(None, Some(value), written).len() && (#[trigger] steps(
                None,
                Some(value),
                written,
            )[i] is Populate) ==> i == 2,
{
}

/// A cache-aside query made of three ways to get at a value: from the
/// cache, from the store, and into the cache.
pub struct CachedQuery<R, S, M> {
    redis_query: R,
    sql_query: S,
    miss_query: M,
}

impl<R, S, M> CachedQuery<R, S, M> {
    /// How the cache is read.
    pub closed spec fn read(self) -> R {
        self.redis_query
    }

    /// How the store is read.
    pub closed spec fn load(self) -> S {
        self.sql_query
    }

    /// How the cache is written.
    pub closed spec fn populate(self) -> M {
        self.miss_query
    }

    /// Puts the three together.
    pub fn new(sql_query: S, redis_query: R, miss_query: M) -> (query: Self)
        ensures
            query.read() == redis_query,
            query.load() == sql_query,
            query.populate() == miss_query,
    {
        CachedQuery { redis_query, sql_query, miss_query }
    }

    /// Looks `key` up. A value in the cache is returned at once. Otherwise
    /// the store is asked: what it has is written to the cache and returned
    /// as written, and where it has nothing, nothing is returned and the
    /// cache is left alone. A failure of any of the three ends the query
    /// with that failure.
    ///
    /// The store need be ready only where the cache can miss, and the write
    /// to the cache only where the cache can miss and for a value that the
    /// store can give.
    pub fn query<C, D, T, E>(self, db: &D, redis: &C, key: &String) -> (result: Result<
        Option<T>,
        E,
    >) where
        R: FnOnce(&String, &C) -> Result<Option<T>, E>,
        S: FnOnce(&String, &D) -> Result<Option<T>, E>,
        M: FnOnce(&String, T, &C) -> Result<T, E>,

        requires
            self.read().requires((key, redis)),
            self.read().ensures((key, redis), Ok(None)) ==> self.load().requires((key, db)),
            self.read().ensures((key, redis), Ok(None)) ==> forall|value: T| #[trigger]
                self.load().ensures((key, db), Ok(Some(value))) ==> self.populate().requires(
                    (key, value, redis),
                ),
        ensures
            exists|hit: Result<Option<T>, E>| #[trigger]
                self.read().ensures((key, redis), hit) && match hit {
                    Err(error) => result == Err::<Option<T>, E>(error),
                    Ok(Some(value)) => result == Ok::<Option<T>, E>(Some(value)),
                    Ok(None) => exists|found: Result<Option<T>, E>| #[trigger]
                        self.load().ensures((key, db), found) && match found {
                            Err(error) => result == Err::<Option<T>, E>(error),
                            Ok(None) => result == Ok::<Option<T>, E>(None),
                            Ok(Some(value)) => exists|written: Result<T, E>| #[trigger]
                                self.populate().ensures((key, value, redis), written)
                                    && match written {
                                    Err(error) => result == Err::<Option<T>, E>(error),
                                    Ok(value) => result == Ok::<Option<T>, E>(Some(value)),
                                },
                        },
                },
    {
        let hit = (self.redis_query)(key, redis);
        match hit {
            Err(error) => Err(error),
            Ok(hit) => match next_step(QueryEvent::ReadGave(hit)) {
                QueryStep::Done(value) => Ok(value),
                _ => {
                    let found = (self.sql_query)(key, db);
                    match found {
                        Err(error) => Err(error),
                        Ok(found) => match next_step(QueryEvent::LoadGave(found)) {
                            QueryStep::Populate(value) => {
                                let written = (self.miss_query)(key, value, redis);
                                match written {
                                    Err(error) => Err(error),
                                    Ok(value) => Ok(Some(value)),
                                }
                            },
                            _ => Ok(None),
                        },
                    }
                },
            },
        }
    }
}

} // verus!
