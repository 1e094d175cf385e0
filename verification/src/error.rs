//! What can go wrong when talking to the card source.

use vstd::prelude::*;

verus! {

/// The ways in which a request to the card source fails.
#[derive(Debug)]
pub enum ScryfallError {
    /// The request itself failed; holds the description of the transport error.
    HTTPError(String),
    /// The response came, but its contents could not be read.
    ParseError,
}

/// The outcome of a request to the card source.
pub type ScryfallResult<T> = Result<T, ScryfallError>;

impl ScryfallError {
    /// The text that describes an error to a person.
    pub open spec fn text(self) -> Seq<char> {
        match self {
            ScryfallError::HTTPError(why) => "Http error "@ + why@,
            ScryfallError::ParseError => "Error parsing response from scryfall"@,
        }
    }

    /// Describes the error to a person.
    pub fn message(&self) -> (message: String)
        ensures
            message@ == self.text(),
    {
        match self {
            ScryfallError::HTTPError(why) => {
                let mut message = "Http error ".to_owned();
                message.append(why.as_str());
                message
            },
            ScryfallError::ParseError => "Error parsing response from scryfall".to_owned(),
        }
    }
}

/// The description of a failed request is that of its cause behind what tells that the
/// request failed. Unreadable contents are always described alike.
pub proof fn law_message_tells_the_cause(error: ScryfallError, message: String)
    requires
        call_ensures(ScryfallError::message, (&error,), message),
    ensures
        error matches ScryfallError::HTTPError(why) ==> {
            &&& "Http error "@.is_prefix_of(message@)
            &&& why@.is_suffix_of(message@)
            &&& message@.len() == "Http error "@.len() + why@.len()
        },
        error is ParseError ==> message@ == "Error parsing response from scryfall"@,
{
    if let ScryfallError::HTTPError(why) = error {
        let start = "Http error "@.len() as int;
        assert(message@.subrange(0, start) =~= "Http error "@);
        assert(message@.subrange(start, message@.len() as int) =~= why@);
    }
}

/// Failed requests are described alike only if their causes are.
pub proof fn law_messages_tell_causes_apart(
    one: ScryfallError,
    other: ScryfallError,
    one_message: String,
    other_message: String,
    one_why: String,
    other_why: String,
)
    requires
        call_ensures(ScryfallError::message, (&one,), one_message),
        call_ensures(ScryfallError::message, (&other,), other_message),
        one == ScryfallError::HTTPError(one_why),
        other == ScryfallError::HTTPError(other_why),
        one_message@ == other_message@,
    ensures
        one_why@ == other_why@,
{
    law_message_tells_the_cause(one, one_message);
    law_message_tells_the_cause(other, other_message);
    let start = "Http error "@.len() as int;
    assert(one_why@ == one_message@.subrange(start, one_message@.len() as int));
    assert(other_why@ == one_message@.subrange(start, one_message@.len() as int));
}

} // verus!
