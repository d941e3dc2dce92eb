use vstd::prelude::*;

verus! {

/// Parser configuration structure.
///
/// This structure contains the options which decide how the raw event
/// stream of the tokenizer is normalized before it reaches the caller.
/// It is built once, from `new` and a chain of setters, and is not changed
/// while a stream is being normalized.
#[derive(Clone, Copy, Debug, PartialEq, Eq)]
pub struct ParserConfig {
    /// Whether or not should whitespace be removed. Default is false.
    ///
    /// When true, all standalone whitespace will be removed (this means no
    /// `Whitespace` events will be emitted), and leading and trailing whitespace
    /// from `Characters` events will be deleted. If after trimming a `Characters`
    /// event is empty, it is omitted from the output stream.
    ///
    /// This option does not affect CDATA events, unless `cdata_to_characters`
    /// option is also set. In that case CDATA content will also be trimmed.
    pub trim_whitespace: bool,
    /// Whether or not should whitespace be converted to characters.
    /// Default is false.
    ///
    /// If true, instead of `Whitespace` events `Characters` events with the
    /// same content will be emitted. If `trim_whitespace` is also true, these
    /// events will be trimmed to nothing and, consequently, not emitted.
    pub whitespace_to_characters: bool,
    /// Whether or not should CDATA be converted to characters.
    /// Default is false.
    ///
    /// If true, instead of `CData` events `Characters` events with the same
    /// content will be emitted. If `trim_whitespace` is also true, these events
    /// will be trimmed.
    pub cdata_to_characters: bool,
    /// Whether or not should comments be omitted. Default is true.
    ///
    /// If true, `Comment` events will not be emitted at all.
    pub ignore_comments: bool,
    /// Whether or not should sequential `Characters` events be merged.
    /// Default is true.
    ///
    /// If true, multiple sequential `Characters` events will be merged into
    /// a single event, that is, their data will be concatenated.
    pub merge_sequential_characters: bool,
}

impl ParserConfig {
    /// The configuration with every option at its default.
    pub open spec fn spec_default() -> ParserConfig {
        ParserConfig {
            trim_whitespace: false,
            whitespace_to_characters: false,
            cdata_to_characters: false,
            ignore_comments: true,
            merge_sequential_characters: true,
        }
    }

    /// Creates a configuration with the default options: no trimming, no
    /// conversion of whitespace or CDATA, comments ignored, sequential
    /// characters merged.
    pub fn new() -> (r: ParserConfig)
        ensures
            r == ParserConfig::spec_default(),
    {
        ParserConfig {
            trim_whitespace: false,
            whitespace_to_characters: false,
            cdata_to_characters: false,
            ignore_comments: true,
            merge_sequential_characters: true,
        }
    }

    /// Returns this configuration with `trim_whitespace` set to `value`.
    pub fn trim_whitespace(self, value: bool) -> (r: ParserConfig)
        ensures
            r == (ParserConfig { trim_whitespace: value, ..self }),
    {
        let mut c = self;
        c.trim_whitespace = value;
        c
    }

    /// Returns this configuration with `whitespace_to_characters` set to `value`.
    pub fn whitespace_to_characters(self, value: bool) -> (r: ParserConfig)
        ensures
            r == (ParserConfig { whitespace_to_characters: value, ..self }),
    {
        let mut c = self;
        c.whitespace_to_characters = value;
        c
    }

    /// Returns this configuration with `cdata_to_characters` set to `value`.
    pub fn cdata_to_characters(self, value: bool) -> (r: ParserConfig)
        ensures
            r == (ParserConfig { cdata_to_characters: value, ..self }),
    {
        let mut c = self;
        c.cdata_to_characters = value;
        c
    }

    /// Returns this configuration with `ignore_comments` set to `value`.
    pub fn ignore_comments(self, value: bool) -> (r: ParserConfig)
        ensures
            r == (ParserConfig { ignore_comments: value, ..self }),
    {
        let mut c = self;
        c.ignore_comments = value;
        c
    }

    /// Returns this configuration with `merge_sequential_characters` set to `value`.
    pub fn merge_sequential_characters(self, value: bool) -> (r: ParserConfig)
        ensures
            r == (ParserConfig { merge_sequential_characters: value, ..self }),
    {
        let mut c = self;
        c.merge_sequential_characters = value;
        c
    }
}

} // verus!
