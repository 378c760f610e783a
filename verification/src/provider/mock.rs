//! A deterministic in-memory provider: it hands out one fixed number
//! and one fixed message, so the derived selection operations can be
//! exercised without any network access.

use vstd::prelude::*;

use crate::Error;
use crate::provider::{Message, Number, ProviderClient};

verus! {

/// The one phone number the mock provider hands out.
pub const TEST_NUM: &'static str = "123456789";

/// The country of the mock provider's number.
pub const TEST_COUNTRY: &'static str = "US";

/// The body of the one message the mock provider hands out.
pub const TEST_MSG: &'static str = "Hello there";

/// The originator of the mock provider's message.
pub const TEST_ORIG: &'static str = "Test";

/// The fixed timestamp, in seconds since the Unix epoch, that the mock
/// provider stamps on its number and message.
pub const TEST_TIME: i64 = 1_700_000_000;

/// A provider that serves fixed in-memory data: one number and one
/// message, always the same.
pub struct MockProvider {}

impl Default for MockProvider {
    fn default() -> (r: Self)
        ensures
            r == (MockProvider {  }),
    {
        MockProvider {  }
    }
}

impl ProviderClient for MockProvider {
    /// Always succeeds with exactly one number: [`TEST_NUM`] in
    /// [`TEST_COUNTRY`], created at [`TEST_TIME`].
    fn get_all_numbers(&mut self) -> (r: Result<Vec<Number>, Error>)
        ensures
            r matches Ok(v) && v@.len() == 1,
            r matches Ok(v) ==> {
                &&& v@[0].number@ == TEST_NUM@
                &&& (v@[0].country matches Some(c) && c@ == TEST_COUNTRY@)
                &&& v@[0].created_at == Some(TEST_TIME)
            },
    {
        let number = Number {
            number: TEST_NUM.to_owned(),
            country: Some(TEST_COUNTRY.to_owned()),
            created_at: Some(TEST_TIME),
        };
        let mut v: Vec<Number> = Vec::new();
        v.push(number);
        Ok(v)
    }

    /// Always succeeds with exactly one message: [`TEST_MSG`] from
    /// [`TEST_ORIG`], created at [`TEST_TIME`], whatever the number.
    fn get_messages(&mut self, number: &Number) -> (r: Result<Vec<Message>, Error>)
        ensures
            r matches Ok(v) && v@.len() == 1,
            r matches Ok(v) ==> {
                &&& v@[0].body@ == TEST_MSG@
                &&& (v@[0].originator matches Some(o) && o@ == TEST_ORIG@)
                &&& v@[0].created_at == Some(TEST_TIME)
            },
    {
        let msg = Message {
            body: TEST_MSG.to_owned(),
            originator: Some(TEST_ORIG.to_owned()),
            created_at: Some(TEST_TIME),
        };
        let mut v: Vec<Message> = Vec::new();
        v.push(msg);
        Ok(v)
    }
}

} // verus!
