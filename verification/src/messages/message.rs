//! The parts of a message.

pub use crate::messages::header::Header;

use crate::cdr::DecodeError;
use crate::messages::SubMessage;
use vec1::{Size0Error, Vec1};
use vstd::prelude::*;

verus! {

#[verifier::external_type_specification]
#[verifier::external_body]
#[verifier::reject_recursive_types(I)]
pub struct ExVec1<I>(Vec1<I>);

#[verifier::external_type_specification]
#[verifier::external_body]
pub struct ExSize0Error(Size0Error);

/// The submessages that a `Vec1` holds, in order.
pub uninterp spec fn items_of(submessages: Vec1<SubMessage>) -> Seq<SubMessage>;

/// `Vec1::try_from_vec`: a vector with at least one item becomes a `Vec1`
/// of the same items in the same order; an empty vector is refused.
#[verifier::external_body]
fn non_empty(items: Vec<SubMessage>) -> (result: Result<Vec1<SubMessage>, Size0Error>)
    ensures
        match result {
            Ok(submessages) => items@.len() > 0 && items_of(submessages) == items@,
            Err(_) => items@.len() == 0,
        },
{
    Vec1::try_from_vec(items)
}

/// `Vec1::as_slice`: the items as a slice, of which there is at least one.
#[verifier::external_body]
fn as_slice(submessages: &Vec1<SubMessage>) -> (items: &[SubMessage])
    ensures
        items@ == items_of(*submessages),
        items@.len() > 0,
{
    submessages.as_slice()
}

/// An extension to the header of a message. Implementations that do not
/// know it skip it.
#[derive(Debug, Clone, Copy, PartialEq, Eq, Structural)]
pub struct HeaderExtension;

/// A message: a header, an optional header extension and one submessage or
/// more, in an order that matters.
#[derive(Debug)]
pub struct Message {
    header: Header,
    header_extension: Option<HeaderExtension>,
    submessages: Vec1<SubMessage>,
}

/// Mathematical model of a [`Message`].
pub struct MessageView {
    /// The header, which tells who sent the message.
    pub header: Header,
    /// The header extension, if the message has one.
    pub header_extension: Option<HeaderExtension>,
    /// The submessages, in order. There is at least one.
    pub submessages: Seq<SubMessage>,
}

impl View for Message {
    type V = MessageView;

    closed spec fn view(&self) -> MessageView {
        MessageView {
            header: self.header,
            header_extension: self.header_extension,
            submessages: items_of(self.submessages),
        }
    }
}

impl Message {
    /// Puts a message together from its parts.
    ///
    /// # Errors
    ///
    /// Fails with [`DecodeError::NoSubmessages`] if `submessages` is empty:
    /// a message holds at least one submessage.
    pub fn new(
        header: Header,
        header_extension: Option<HeaderExtension>,
        submessages: Vec<SubMessage>,
    ) -> (result: Result<Self, DecodeError>)
        ensures
            match result {
                Ok(message) => submessages@.len() > 0 && message@ == (MessageView {
                    header,
                    header_extension,
                    submessages: submessages@,
                }),
                Err(error) => submessages@.len() == 0 && error == DecodeError::NoSubmessages,
            },
    {
        match non_empty(submessages) {
            Ok(submessages) => Ok(Message { header, header_extension, submessages }),
            Err(_) => Err(DecodeError::NoSubmessages),
        }
    }

    /// Returns the header.
    #[must_use]
    pub fn header(&self) -> (header: &Header)
        ensures
            *header == self@.header,
    {
        &self.header
    }

    /// Returns the header extension, if the message has one.
    #[must_use]
    pub fn header_extension(&self) -> (header_extension: Option<HeaderExtension>)
        ensures
            header_extension == self@.header_extension,
    {
        self.header_extension
    }

    /// Returns the submessages, in order. There is at least one.
    #[must_use]
    pub fn submessages(&self) -> (submessages: &[SubMessage])
        ensures
            submessages@ == self@.submessages,
            submessages@.len() > 0,
    {
        as_slice(&self.submessages)
    }
}

} // verus!
