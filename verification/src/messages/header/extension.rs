use crate::messages::ByteOrder;
use vstd::prelude::*;

verus! {

/// A point in time: seconds and nanoseconds since the start of 1970, UTC.
#[derive(Debug, Clone, Copy, PartialEq, Eq, Structural)]
pub struct Timestamp {
    /// Whole seconds since the start of 1970; negative before it.
    pub seconds: i64,
    /// Nanoseconds on top of the whole seconds.
    pub nanoseconds: u32,
}

/// A checksum over a message.
#[derive(Debug, Clone, Copy, PartialEq, Eq, Structural)]
pub struct Checksum;

/// A parameter of a header extension.
#[derive(Debug, Clone, Copy, PartialEq, Eq, Structural)]
pub struct Parameter;

/// An optional extension to the header of a message.
#[derive(Debug)]
pub struct Extension {
    /// The byte order of the payload.
    pub endianess: ByteOrder,
    /// The length of the message, if stated.
    pub length: Option<usize>,
    /// When the message was sent, if stated.
    pub sent_timestamp: Option<Timestamp>,
    /// The checksum of the message, if it has one.
    pub checksum: Option<Checksum>,
    /// The parameters, in the order in which they were added.
    pub parameters: Vec<Parameter>,
}

/// Mathematical model of an [`Extension`].
pub struct ExtensionView {
    /// The byte order of the payload.
    pub endianess: ByteOrder,
    /// The length of the message, if stated.
    pub length: Option<usize>,
    /// When the message was sent, if stated.
    pub sent_timestamp: Option<Timestamp>,
    /// The checksum of the message, if it has one.
    pub checksum: Option<Checksum>,
    /// The parameters, in the order in which they were added.
    pub parameters: Seq<Parameter>,
}

impl ExtensionView {
    /// The extension on which nothing is set: big-endian, without length,
    /// timestamp, checksum or parameters.
    pub open spec fn unset() -> Self {
        ExtensionView {
            endianess: ByteOrder::BigEndian,
            length: None,
            sent_timestamp: None,
            checksum: None,
            parameters: Seq::empty(),
        }
    }
}

impl View for Extension {
    type V = ExtensionView;

    open spec fn view(&self) -> ExtensionView {
        ExtensionView {
            endianess: self.endianess,
            length: self.length,
            sent_timestamp: self.sent_timestamp,
            checksum: self.checksum,
            parameters: self.parameters@,
        }
    }
}

impl Default for Extension {
    /// The extension on which nothing is set.
    fn default() -> (extension: Self)
        ensures
            extension@ == ExtensionView::unset(),
    {
        Extension {
            endianess: ByteOrder::default(),
            length: None,
            sent_timestamp: None,
            checksum: None,
            parameters: Vec::new(),
        }
    }
}

impl Extension {
    /// Starts building a header extension on which nothing is set yet.
    pub fn builder() -> (builder: Builder)
        ensures
            builder@ == ExtensionView::unset(),
    {
        Builder::default()
    }
}

/// A header extension in the making.
#[derive(Debug)]
#[must_use]
pub struct Builder {
    extension: Extension,
}

impl View for Builder {
    type V = ExtensionView;

    closed spec fn view(&self) -> ExtensionView {
        self.extension@
    }
}

impl Default for Builder {
    /// A builder on which nothing is set.
    fn default() -> (builder: Self)
        ensures
            builder@ == ExtensionView::unset(),
    {
        Builder { extension: Extension::default() }
    }
}

impl Builder {
    /// Sets the byte order of the payload.
    pub fn endianess(self, endianess: ByteOrder) -> (builder: Self)
        ensures
            builder@ == (ExtensionView { endianess, ..self@ }),
    {
        let mut builder = self;
        builder.extension.endianess = endianess;
        builder
    }

    /// States the length of the message.
    pub fn length(self, len: usize) -> (builder: Self)
        ensures
            builder@ == (ExtensionView { length: Some(len), ..self@ }),
    {
        let mut builder = self;
        builder.extension.length = Some(len);
        builder
    }

    /// States when the message was sent.
    pub fn sent_timestamp(self, timestamp: Timestamp) -> (builder: Self)
        ensures
            builder@ == (ExtensionView { sent_timestamp: Some(timestamp), ..self@ }),
    {
        let mut builder = self;
        builder.extension.sent_timestamp = Some(timestamp);
        builder
    }

    /// Sets the checksum of the message.
    pub fn checksum(self, checksum: Checksum) -> (builder: Self)
        ensures
            builder@ == (ExtensionView { checksum: Some(checksum), ..self@ }),
    {
        let mut builder = self;
        builder.extension.checksum = Some(checksum);
        builder
    }

    /// Adds a parameter after those added before.
    pub fn parameter(self, param: Parameter) -> (builder: Self)
        ensures
            builder@ == (ExtensionView { parameters: self@.parameters.push(param), ..self@ }),
    {
        let mut builder = self;
        builder.extension.parameters.push(param);
        builder
    }

    /// Returns the header extension as it was set up.
    #[must_use]
    pub fn build(self) -> (extension: Extension)
        ensures
            extension@ == self@,
    {
        self.extension
    }
}

} // verus!
