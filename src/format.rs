//! Preparing a format request and turning the formatter's output into edits.

use vstd::prelude::*;
use vstd::string::StringSliceAdditionalSpecFns;
use crate::diff::{edits_for, eol_chars, line_diff, text_edits, LineEndings, TextEdit};
use crate::lines::lines_of;
use crate::position::{offset_of, position_to_offset, Position, Range};

verus! {

/// Whether the formatter indents with tabs or with spaces.
#[derive(Clone, Copy, Debug, PartialEq, Eq, Structural)]
pub enum IndentType {
    Tabs,
    Spaces,
}

/// The indentation that the editor asks for.
#[derive(Clone, Copy, Debug, PartialEq, Eq, Structural)]
pub struct FormattingOptions {
    pub tab_size: u32,
    pub insert_spaces: bool,
}

/// The parts of the formatter's configuration that this layer reads or sets.
#[derive(Clone, Copy, Debug, PartialEq, Eq, Structural)]
pub struct FormatConfig {
    pub indent_width: usize,
    pub indent_type: IndentType,
    pub line_endings: LineEndings,
}

/// A span of byte offsets: `start` inclusive, `end` exclusive.
#[derive(Clone, Copy, Debug, PartialEq, Eq, Structural)]
pub struct OffsetRange {
    pub start: usize,
    pub end: usize,
}

/// What the formatter is to be run with.
#[derive(Clone, Copy, Debug, PartialEq, Eq, Structural)]
pub struct FormatJob {
    pub config: FormatConfig,
    pub range: Option<OffsetRange>,
}

/// Why a format request was refused.
#[derive(Clone, Copy, Debug, PartialEq, Eq, Structural)]
pub enum FormatError {
    /// A position of the requested range does not exist in the document.
    UnresolvedPosition(Position),
}

/// `resolved` with its indentation taken from the editor's options.
pub open spec fn with_options(resolved: FormatConfig, options: FormattingOptions) -> FormatConfig {
    FormatConfig {
        indent_width: options.tab_size as usize,
        indent_type: if options.insert_spaces { IndentType::Spaces } else { IndentType::Tabs },
        line_endings: resolved.line_endings,
    }
}

/// The byte range that `range` denotes in the bytes `doc`, or the first of
/// its positions that does not exist there.
pub open spec fn offsets_of(doc: Seq<u8>, range: Range) -> Result<OffsetRange, FormatError> {
    let start = offset_of(doc, range.start.line as nat, range.start.character as nat);
    let end = offset_of(doc, range.end.line as nat, range.end.character as nat);
    if start is None {
        Err(FormatError::UnresolvedPosition(range.start))
    } else if end is None {
        Err(FormatError::UnresolvedPosition(range.end))
    } else {
        Ok(OffsetRange { start: start->0 as usize, end: end->0 as usize })
    }
}

/// A range whose start does not exist in the document is refused, naming
/// that start; no byte range is handed to the formatter.
pub proof fn lemma_unresolved_start_refused(doc: Seq<u8>, range: Range)
    requires
        offset_of(doc, range.start.line as nat, range.start.character as nat) is None,
    ensures
        offsets_of(doc, range) == Err::<OffsetRange, FormatError>(FormatError::UnresolvedPosition(range.start)),
{
}

/// The effective configuration: the resolved one, with the indentation width
/// and the choice of tabs or spaces that the editor sent.
pub fn get_config(resolved: FormatConfig, options: FormattingOptions) -> (r: FormatConfig)
    ensures
        r == with_options(resolved, options),
{
    FormatConfig {
        indent_width: options.tab_size as usize,
        indent_type: if options.insert_spaces {
            IndentType::Spaces
        } else {
            IndentType::Tabs
        },
        line_endings: resolved.line_endings,
    }
}

/// Resolves a format request on `document`: the effective configuration and,
/// for a range request, the byte range to format. Fails when a position of the
/// range does not exist in the document.
pub fn prepare_format(
    document: &str,
    resolved: FormatConfig,
    options: FormattingOptions,
    range: Option<Range>,
) -> (r: Result<FormatJob, FormatError>)
    ensures
        match range {
            None => r == Ok::<FormatJob, FormatError>(
                FormatJob { config: with_options(resolved, options), range: None },
            ),
            Some(rg) => match offsets_of(document.spec_bytes(), rg) {
                Ok(o) => r == Ok::<FormatJob, FormatError>(
                    FormatJob { config: with_options(resolved, options), range: Some(o) },
                ),
                Err(e) => r == Err::<FormatJob, FormatError>(e),
            },
        },
{
    let config = get_config(resolved, options);
    match range {
        None => Ok(FormatJob { config, range: None }),
        Some(rg) => {
            let start = match position_to_offset(rg.start, document) {
                Some(o) => o,
                None => return Err(FormatError::UnresolvedPosition(rg.start)),
            };
            let end = match position_to_offset(rg.end, document) {
                Some(o) => o,
                None => return Err(FormatError::UnresolvedPosition(rg.end)),
            };
            Ok(FormatJob { config, range: Some(OffsetRange { start, end }) })
        },
    }
}

/// The edits that turn `document` into `formatted`, the formatter's output
/// for it under `config`. An already formatted document gives none.
pub fn format_document(document: &str, formatted: &str, config: FormatConfig) -> (r: Vec<TextEdit>)
    ensures
        edits_for(line_diff(document@, formatted@), lines_of(formatted@), eol_chars(config.line_endings), r@),
        document@ == formatted@ ==> r@.len() == 0,
{
    text_edits(document, formatted, config.line_endings)
}

} // verus!
