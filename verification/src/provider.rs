//! The provider abstraction: data model, selection algorithms, and the
//! [`ProviderClient`] trait that every concrete provider implements.

use vstd::prelude::*;

use crate::Error;

pub mod mock;
pub mod upmasked;

verus! {

/// A phone number obtained from (or handed back to) a provider.
///
/// Immutable once returned; selection treats two numbers as the same
/// when their `number` strings are equal. `created_at` is the lease
/// time in seconds since the Unix epoch, when the provider reports one.
#[derive(Debug)]
pub struct Number {
    pub number: String,
    pub country: Option<String>,
    pub created_at: Option<i64>,
}

/// One SMS received on a number.
///
/// Immutable; ordering among messages is entirely by `created_at`
/// (seconds since the Unix epoch), where an absent timestamp counts
/// as older than every present one.
#[derive(Debug)]
pub struct Message {
    pub body: String,
    pub originator: Option<String>,
    pub created_at: Option<i64>,
}

impl Clone for Number {
    fn clone(&self) -> (r: Self)
        ensures
            r == *self,
    {
        Number {
            number: self.number.clone(),
            country: match &self.country {
                Some(c) => Some(c.clone()),
                None => None,
            },
            created_at: self.created_at,
        }
    }
}

impl Clone for Message {
    fn clone(&self) -> (r: Self)
        ensures
            r == *self,
    {
        Message {
            body: self.body.clone(),
            originator: match &self.originator {
                Some(o) => Some(o.clone()),
                None => None,
            },
            created_at: self.created_at,
        }
    }
}

/// Timestamp order used by message selection: an absent timestamp is
/// older than (or equal to) every timestamp, present ones compare as
/// integers. `time_le(a, b)` says `a` is no newer than `b`.
pub open spec fn time_le(a: Option<i64>, b: Option<i64>) -> bool {
    match a {
        None => true,
        Some(x) => match b {
            None => false,
            Some(y) => x <= y,
        },
    }
}

/// Strict form of [`time_le`]: `a` is strictly older than `b`.
pub open spec fn time_lt(a: Option<i64>, b: Option<i64>) -> bool {
    match b {
        None => false,
        Some(y) => match a {
            None => true,
            Some(x) => x < y,
        },
    }
}

/// A number matches a target country exactly when its `country` field is
/// present and equal, character for character; an absent country never
/// matches.
pub open spec fn country_matches(n: Number, country: Seq<char>) -> bool {
    match n.country {
        Some(c) => c@ == country,
        None => false,
    }
}

/// A message matches a target originator exactly when its `originator`
/// field is present and equal, character for character; an absent
/// originator never matches.
pub open spec fn originator_matches(m: Message, originator: Seq<char>) -> bool {
    match m.originator {
        Some(o) => o@ == originator,
        None => false,
    }
}

/// `i` points at the message that wins the "latest" selection: every
/// message's timestamp is no newer than `msgs[i]`'s, and every earlier
/// message is strictly older. This is the first element of the list
/// stably sorted descending by `created_at`.
pub open spec fn is_latest_index(msgs: Seq<Message>, i: int) -> bool {
    &&& 0 <= i < msgs.len()
    &&& forall|j: int|
        0 <= j < msgs.len() ==> #[trigger] time_le(msgs[j].created_at, msgs[i].created_at)
    &&& forall|j: int| 0 <= j < i ==> #[trigger] time_lt(msgs[j].created_at, msgs[i].created_at)
}

/// `i` points at the message that wins the "latest from `originator`"
/// selection: `msgs[i]` matches, no matching message is newer, and every
/// earlier matching message is strictly older. This is the first match
/// in the list stably sorted descending by `created_at`.
pub open spec fn is_latest_match_index(msgs: Seq<Message>, originator: Seq<char>, i: int) -> bool {
    &&& 0 <= i < msgs.len()
    &&& originator_matches(msgs[i], originator)
    &&& forall|j: int|
        0 <= j < msgs.len() && #[trigger] originator_matches(msgs[j], originator) ==> time_le(
            msgs[j].created_at,
            msgs[i].created_at,
        )
    &&& forall|j: int|
        0 <= j < i && #[trigger] originator_matches(msgs[j], originator) ==> time_lt(
            msgs[j].created_at,
            msgs[i].created_at,
        )
}

/// Executable form of [`time_lt`].
fn time_before(a: &Option<i64>, b: &Option<i64>) -> (r: bool)
    ensures
        r == time_lt(*a, *b),
{
    match b {
        None => false,
        Some(y) => match a {
            None => true,
            Some(x) => *x < *y,
        },
    }
}

/// Selects "any" number from a fetched list: strictly the first element,
/// deterministically; an empty list yields `NotFound`.
pub fn select_any_number(numbers: &Vec<Number>) -> (r: Result<Number, Error>)
    ensures
        numbers@.len() > 0 ==> r == Ok::<Number, Error>(numbers@[0]),
        numbers@.len() == 0 ==> r == Err::<Number, Error>(Error::NotFound),
{
    if numbers.len() > 0 {
        Ok(numbers[0].clone())
    } else {
        Err(Error::NotFound)
    }
}

/// Selects the first number of a fetched list whose `country` field is
/// present and exactly equal (string equality, no normalization) to
/// `country`; `NotFound` when no number matches.
pub fn select_number_for_country(numbers: &Vec<Number>, country: &str) -> (r: Result<
    Number,
    Error,
>)
    ensures
        r is Ok <==> exists|i: int|
            0 <= i < numbers@.len() && #[trigger] country_matches(numbers@[i], country@),
        r matches Ok(n) ==> exists|i: int|
            {
                &&& 0 <= i < numbers@.len()
                &&& n == numbers@[i]
                &&& #[trigger] country_matches(numbers@[i], country@)
                &&& forall|j: int|
                    0 <= j < i ==> !#[trigger] country_matches(numbers@[j], country@)
            },
        r matches Err(e) ==> e == Error::NotFound,
{
    let target: String = country.to_owned();
    let mut i: usize = 0;
    while i < numbers.len()
        invariant
            i <= numbers@.len(),
            target@ == country@,
            forall|j: int| 0 <= j < i ==> !#[trigger] country_matches(numbers@[j], country@),
        decreases numbers@.len() - i,
    {
        let matched = match &numbers[i].country {
            Some(c) => *c == target,
            None => false,
        };
        if matched {
            proof {
                assert(country_matches(numbers@[i as int], country@));
            }
            return Ok(numbers[i].clone());
        }
        i += 1;
    }
    Err(Error::NotFound)
}

/// Selects the newest message of a fetched list: the first element after
/// stably sorting descending by `created_at`, where an absent timestamp
/// sorts as oldest; `NotFound` when the list is empty.
pub fn select_latest_message(msgs: &Vec<Message>) -> (r: Result<Message, Error>)
    ensures
        msgs@.len() == 0 ==> r == Err::<Message, Error>(Error::NotFound),
        msgs@.len() > 0 ==> (r matches Ok(m) && exists|i: int|
            #[trigger] is_latest_index(msgs@, i) && m == msgs@[i]),
{
    if msgs.len() == 0 {
        return Err(Error::NotFound);
    }
    let mut best: usize = 0;
    let mut i: usize = 1;
    while i < msgs.len()
        invariant
            1 <= i <= msgs@.len(),
            best < i,
            forall|j: int|
                0 <= j < i ==> #[trigger] time_le(msgs@[j].created_at, msgs@[best as int].created_at),
            forall|j: int|
                0 <= j < best ==> #[trigger] time_lt(
                    msgs@[j].created_at,
                    msgs@[best as int].created_at,
                ),
        decreases msgs@.len() - i,
    {
        let newer = time_before(&msgs[best].created_at, &msgs[i].created_at);
        proof {
            if newer {
                assert forall|j: int| 0 <= j < i + 1 implies #[trigger] time_le(
                    msgs@[j].created_at,
                    msgs@[i as int].created_at,
                ) by {
                    if j < i {
                        assert(time_le(msgs@[j].created_at, msgs@[best as int].created_at));
                    }
                }
                assert forall|j: int| 0 <= j < i implies #[trigger] time_lt(
                    msgs@[j].created_at,
                    msgs@[i as int].created_at,
                ) by {
                    assert(time_le(msgs@[j].created_at, msgs@[best as int].created_at));
                }
            } else {
                assert(time_le(msgs@[i as int].created_at, msgs@[best as int].created_at));
            }
        }
        if newer {
            best = i;
        }
        i += 1;
    }
    assert(is_latest_index(msgs@, best as int));
    Ok(msgs[best].clone())
}

/// Selects the newest message of a fetched list whose `originator` field
/// is present and exactly equal to `originator`: the first matching
/// element after stably sorting descending by `created_at`; `NotFound`
/// when no message matches.
pub fn select_latest_message_from(msgs: &Vec<Message>, originator: &str) -> (r: Result<
    Message,
    Error,
>)
    ensures
        r is Ok <==> exists|i: int|
            0 <= i < msgs@.len() && #[trigger] originator_matches(msgs@[i], originator@),
        r matches Ok(m) ==> exists|i: int|
            #[trigger] is_latest_match_index(msgs@, originator@, i) && m == msgs@[i],
        r matches Err(e) ==> e == Error::NotFound,
{
    let target: String = originator.to_owned();
    let mut found = false;
    let mut best: usize = 0;
    let mut i: usize = 0;
    while i < msgs.len()
        invariant
            i <= msgs@.len(),
            target@ == originator@,
            !found ==> forall|j: int|
                0 <= j < i ==> !#[trigger] originator_matches(msgs@[j], originator@),
            found ==> {
                &&& best < i
                &&& originator_matches(msgs@[best as int], originator@)
                &&& forall|j: int|
                    0 <= j < i && #[trigger] originator_matches(msgs@[j], originator@) ==> time_le(
                        msgs@[j].created_at,
                        msgs@[best as int].created_at,
                    )
                &&& forall|j: int|
                    0 <= j < best && #[trigger] originator_matches(msgs@[j], originator@)
                        ==> time_lt(msgs@[j].created_at, msgs@[best as int].created_at)
            },
        decreases msgs@.len() - i,
    {
        let matched = match &msgs[i].originator {
            Some(o) => *o == target,
            None => false,
        };
        if matched {
            if !found || time_before(&msgs[best].created_at, &msgs[i].created_at) {
                best = i;
            }
            found = true;
        }
        i += 1;
    }
    if found {
        assert(is_latest_match_index(msgs@, originator@, best as int));
        Ok(msgs[best].clone())
    } else {
        Err(Error::NotFound)
    }
}

/// At most one index wins the "latest" selection on a given list: the
/// winning message is uniquely determined by the list.
pub proof fn lemma_latest_index_unique(msgs: Seq<Message>, i1: int, i2: int)
    requires
        is_latest_index(msgs, i1),
        is_latest_index(msgs, i2),
    ensures
        i1 == i2,
{
    if i1 < i2 {
        assert(time_lt(msgs[i1].created_at, msgs[i2].created_at));
        assert(time_le(msgs[i2].created_at, msgs[i1].created_at));
    }
    if i2 < i1 {
        assert(time_lt(msgs[i2].created_at, msgs[i1].created_at));
        assert(time_le(msgs[i1].created_at, msgs[i2].created_at));
    }
}

/// At most one index wins the "latest from `originator`" selection on a
/// given list: the winning message is uniquely determined by the list
/// and the originator.
pub proof fn lemma_latest_match_index_unique(
    msgs: Seq<Message>,
    originator: Seq<char>,
    i1: int,
    i2: int,
)
    requires
        is_latest_match_index(msgs, originator, i1),
        is_latest_match_index(msgs, originator, i2),
    ensures
        i1 == i2,
{
    if i1 < i2 {
        assert(time_lt(msgs[i1].created_at, msgs[i2].created_at));
        assert(time_le(msgs[i2].created_at, msgs[i1].created_at));
    }
    if i2 < i1 {
        assert(time_lt(msgs[i2].created_at, msgs[i1].created_at));
        assert(time_le(msgs[i1].created_at, msgs[i2].created_at));
    }
}

/// Idempotence of the "any number" selection: two results of
/// [`select_any_number`] on the same fetched list — each hypothesis
/// below is that function's postcondition — are identical.
pub proof fn lemma_select_any_number_idempotent(
    numbers: Seq<Number>,
    r1: Result<Number, Error>,
    r2: Result<Number, Error>,
)
    requires
        numbers.len() > 0 ==> r1 == Ok::<Number, Error>(numbers[0]),
        numbers.len() == 0 ==> r1 == Err::<Number, Error>(Error::NotFound),
        numbers.len() > 0 ==> r2 == Ok::<Number, Error>(numbers[0]),
        numbers.len() == 0 ==> r2 == Err::<Number, Error>(Error::NotFound),
    ensures
        r1 == r2,
{
}

/// Idempotence of the "number for country" selection: two results of
/// [`select_number_for_country`] on the same fetched list and country —
/// each hypothesis below is that function's postcondition — are
/// identical.
pub proof fn lemma_select_number_for_country_idempotent(
    numbers: Seq<Number>,
    country: Seq<char>,
    r1: Result<Number, Error>,
    r2: Result<Number, Error>,
)
    requires
        r1 is Ok <==> exists|i: int|
            0 <= i < numbers.len() && #[trigger] country_matches(numbers[i], country),
        r1 matches Ok(n) ==> exists|i: int|
            {
                &&& 0 <= i < numbers.len()
                &&& n == numbers[i]
                &&& #[trigger] country_matches(numbers[i], country)
                &&& forall|j: int| 0 <= j < i ==> !#[trigger] country_matches(numbers[j], country)
            },
        r1 matches Err(e) ==> e == Error::NotFound,
        r2 is Ok <==> exists|i: int|
            0 <= i < numbers.len() && #[trigger] country_matches(numbers[i], country),
        r2 matches Ok(n) ==> exists|i: int|
            {
                &&& 0 <= i < numbers.len()
                &&& n == numbers[i]
                &&& #[trigger] country_matches(numbers[i], country)
                &&& forall|j: int| 0 <= j < i ==> !#[trigger] country_matches(numbers[j], country)
            },
        r2 matches Err(e) ==> e == Error::NotFound,
    ensures
        r1 == r2,
{
    if r1 is Ok && r2 is Ok {
        let n1 = r1->Ok_0;
        let n2 = r2->Ok_0;
        let i1 = choose|i: int|
            {
                &&& 0 <= i < numbers.len()
                &&& n1 == numbers[i]
                &&& #[trigger] country_matches(numbers[i], country)
                &&& forall|j: int| 0 <= j < i ==> !#[trigger] country_matches(numbers[j], country)
            };
        let i2 = choose|i: int|
            {
                &&& 0 <= i < numbers.len()
                &&& n2 == numbers[i]
                &&& #[trigger] country_matches(numbers[i], country)
                &&& forall|j: int| 0 <= j < i ==> !#[trigger] country_matches(numbers[j], country)
            };
        assert(i1 == i2);
    }
}

/// Idempotence of the "latest message" selection: two results of
/// [`select_latest_message`] on the same fetched list — each hypothesis
/// below is that function's postcondition — are identical.
pub proof fn lemma_select_latest_message_idempotent(
    msgs: Seq<Message>,
    r1: Result<Message, Error>,
    r2: Result<Message, Error>,
)
    requires
        msgs.len() == 0 ==> r1 == Err::<Message, Error>(Error::NotFound),
        msgs.len() > 0 ==> (r1 matches Ok(m) && exists|i: int|
            #[trigger] is_latest_index(msgs, i) && m == msgs[i]),
        msgs.len() == 0 ==> r2 == Err::<Message, Error>(Error::NotFound),
        msgs.len() > 0 ==> (r2 matches Ok(m) && exists|i: int|
            #[trigger] is_latest_index(msgs, i) && m == msgs[i]),
    ensures
        r1 == r2,
{
    if msgs.len() > 0 {
        let m1 = r1->Ok_0;
        let m2 = r2->Ok_0;
        let i1 = choose|i: int| #[trigger] is_latest_index(msgs, i) && m1 == msgs[i];
        let i2 = choose|i: int| #[trigger] is_latest_index(msgs, i) && m2 == msgs[i];
        lemma_latest_index_unique(msgs, i1, i2);
    }
}

/// Idempotence of the "latest message from originator" selection: two
/// results of [`select_latest_message_from`] on the same fetched list
/// and originator — each hypothesis below is that function's
/// postcondition — are identical.
pub proof fn lemma_select_latest_message_from_idempotent(
    msgs: Seq<Message>,
    originator: Seq<char>,
    r1: Result<Message, Error>,
    r2: Result<Message, Error>,
)
    requires
        r1 is Ok <==> exists|i: int|
            0 <= i < msgs.len() && #[trigger] originator_matches(msgs[i], originator),
        r1 matches Ok(m) ==> exists|i: int|
            #[trigger] is_latest_match_index(msgs, originator, i) && m == msgs[i],
        r1 matches Err(e) ==> e == Error::NotFound,
        r2 is Ok <==> exists|i: int|
            0 <= i < msgs.len() && #[trigger] originator_matches(msgs[i], originator),
        r2 matches Ok(m) ==> exists|i: int|
            #[trigger] is_latest_match_index(msgs, originator, i) && m == msgs[i],
        r2 matches Err(e) ==> e == Error::NotFound,
    ensures
        r1 == r2,
{
    if r1 is Ok && r2 is Ok {
        let m1 = r1->Ok_0;
        let m2 = r2->Ok_0;
        let i1 = choose|i: int| #[trigger] is_latest_match_index(msgs, originator, i) && m1
            == msgs[i];
        let i2 = choose|i: int| #[trigger] is_latest_match_index(msgs, originator, i) && m2
            == msgs[i];
        lemma_latest_match_index_unique(msgs, originator, i1, i2);
    }
}

/// The main trait for an SMS verification provider.
///
/// Any provider used with the library implements this trait. Only the
/// two primitive methods, to list phone numbers and to retrieve
/// messages, are required; the four derived methods have a default
/// implementation each, shared by every provider: they fetch through a
/// primitive and hand the fetched list to the matching `select_*`
/// function, whose contract pins the selection exactly. A derived
/// method reports `NotFound` only as that selection does — when the
/// fetched list, after filtering, holds no qualifying entry — and
/// passes a primitive's transport error through unmodified.
pub trait ProviderClient {
    /// Primitive: lists all phone numbers currently available from the
    /// provider, in provider-native order. A failure is a transport
    /// error; a primitive never reports `NotFound`.
    fn get_all_numbers(&mut self) -> (r: Result<Vec<Number>, Error>)
        ensures
            r matches Err(e) ==> e is Transport,
    ;

    /// Primitive: lists all messages received on `number`, in
    /// provider-native order (not assumed sorted). A failure is a
    /// transport error; a primitive never reports `NotFound`.
    fn get_messages(&mut self, number: &Number) -> (r: Result<Vec<Message>, Error>)
        ensures
            r matches Err(e) ==> e is Transport,
    ;

    /// Retrieves any available number for use: strictly the first
    /// element of the fetched list, as [`select_any_number`] pins it.
    /// Every failure is either the domain error `NotFound` (an empty
    /// fetched list) or a transport error passed through.
    fn get_any_number(&mut self) -> (r: Result<Number, Error>)
        ensures
            r matches Err(e) ==> (e is NotFound || e is Transport),
    {
        match self.get_all_numbers() {
            Ok(numbers) => select_any_number(&numbers),
            Err(e) => Err(e),
        }
    }

    /// Tries to obtain a number for the specified country: the first
    /// fetched number whose `country` equals `country` exactly, as
    /// [`select_number_for_country`] pins it. The format of `country`
    /// can be provider-specific; normally the two-letter country code
    /// (ISO 3166-1 alpha-2) should be assumed. Whatever list the
    /// provider returns, a returned number matches the requested
    /// country.
    /// Every failure is either the domain error `NotFound` (no match in
    /// the fetched list) or a transport error passed through.
    fn get_number_for_country(&mut self, country: &str) -> (r: Result<Number, Error>)
        ensures
            r matches Ok(n) ==> country_matches(n, country@),
            r matches Err(e) ==> (e is NotFound || e is Transport),
    {
        match self.get_all_numbers() {
            Ok(numbers) => select_number_for_country(&numbers, country),
            Err(e) => Err(e),
        }
    }

    /// Retrieves the last message received on `number`: the newest of
    /// the fetched list, as [`select_latest_message`] pins it.
    /// Every failure is either the domain error `NotFound` (an empty
    /// fetched list) or a transport error passed through.
    fn get_latest_message(&mut self, number: &Number) -> (r: Result<Message, Error>)
        ensures
            r matches Err(e) ==> (e is NotFound || e is Transport),
    {
        match self.get_messages(number) {
            Ok(msgs) => select_latest_message(&msgs),
            Err(e) => Err(e),
        }
    }

    /// Retrieves the last message received on `number` from
    /// `originator`: the newest fetched message whose `originator`
    /// equals `originator` exactly, as [`select_latest_message_from`]
    /// pins it. Whatever list the provider returns, a returned message
    /// is from the requested originator; every failure is either the
    /// domain error `NotFound` (no match in the fetched list) or a
    /// transport error passed through.
    fn get_latest_message_from(&mut self, number: &Number, originator: &str) -> (r: Result<
        Message,
        Error,
    >)
        ensures
            r matches Ok(m) ==> originator_matches(m, originator@),
            r matches Err(e) ==> (e is NotFound || e is Transport),
    {
        match self.get_messages(number) {
            Ok(msgs) => select_latest_message_from(&msgs, originator),
            Err(e) => Err(e),
        }
    }
}

/// Instantiates a provider by its type: any provider that offers a
/// default value can stand in for another. The result is exactly what
/// the chosen provider's `Default::default` returns.
pub fn instantiate_with_provider<T: ProviderClient + Default>() -> (r: T)
    ensures
        call_ensures(T::default, (), r),
{
    T::default()
}

} // verus!
