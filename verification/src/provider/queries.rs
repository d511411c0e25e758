//! The charts query and what comes of its response.

use vstd::prelude::*;
use vstd::string::*;

use crate::domain::{section_views, ChartSection, ChartSectionView, RegionCode};
use crate::provider::charts::{chart_report, document_references, parse_chart_playlist_references,
    parse_chart_response, reference_views, response_document, ChartPlaylistReference, ParseError,
    ReferenceView, MAX_RESPONSE_BYTES};
use crate::json::JsonView;
use crate::text::{append_decimal, decimal_digits, quote, quoted};

verus! {

/// Asks for the charts of a region.
#[derive(Eq, PartialEq)]
pub struct ChartsQuery {
    region: RegionCode,
}

impl View for ChartsQuery {
    type V = Seq<char>;

    closed spec fn view(&self) -> Seq<char> {
        self.region@
    }
}

impl Clone for ChartsQuery {
    fn clone(&self) -> (copy: Self)
        ensures
            copy@ == self@,
    {
        ChartsQuery { region: self.region.clone() }
    }
}

impl ChartsQuery {
    pub fn new(region: RegionCode) -> (query: Self)
        ensures
            query@ == region@,
    {
        ChartsQuery { region }
    }

    pub fn region(&self) -> (region: &RegionCode)
        ensures
            region@ == self@,
    {
        &self.region
    }

    /// What may be logged of the query.
    pub fn summary(&self) -> (text: String)
        ensures
            text@ == "ChartsQuery { region: RegionCode("@ + quoted(self@) + "), .. }"@,
    {
        let mut text = "ChartsQuery { region: RegionCode(".to_owned();
        text.append(quote(self.region.as_str()).as_str());
        text.append("), .. }");
        text
    }

    /// Which page the query browses.
    pub fn browse_id(&self) -> (id: &'static str)
        ensures
            id@ == "FEmusic_charts"@,
    {
        "FEmusic_charts"
    }

    /// Which values the query selects: its region.
    pub fn selected_values(&self) -> (values: Vec<String>)
        ensures
            crate::domain::texts(values@) == seq![self@],
    {
        let mut values: Vec<String> = Vec::new();
        values.push(self.region.as_str().to_owned());
        assert(crate::domain::texts(values@) =~= seq![self@]);
        values
    }
}

/// Charts, or the playlists that hold them.
pub struct ChartsQueryOutput {
    sections: Vec<ChartSection>,
    playlist_references: Vec<ChartPlaylistReference>,
}

/// What a [`ChartsQueryOutput`] says.
#[verifier::ext_equal]
pub struct OutputView {
    pub sections: Seq<ChartSectionView>,
    pub references: Seq<ReferenceView>,
}

impl View for ChartsQueryOutput {
    type V = OutputView;

    closed spec fn view(&self) -> OutputView {
        OutputView {
            sections: section_views(self.sections@),
            references: reference_views(self.playlist_references@),
        }
    }
}

impl ChartsQueryOutput {
    pub fn from_sections(sections: Vec<ChartSection>) -> (output: Self)
        ensures
            output@.sections == section_views(sections@),
            output@.references.len() == 0,
    {
        ChartsQueryOutput { sections, playlist_references: Vec::new() }
    }

    pub fn from_playlist_references(playlist_references: Vec<ChartPlaylistReference>) -> (output:
        Self)
        ensures
            output@.sections.len() == 0,
            output@.references == reference_views(playlist_references@),
    {
        ChartsQueryOutput { sections: Vec::new(), playlist_references }
    }

    pub fn into_parts(self) -> (parts: (Vec<ChartSection>, Vec<ChartPlaylistReference>))
        ensures
            section_views(parts.0@) == self@.sections,
            reference_views(parts.1@) == self@.references,
    {
        (self.sections, self.playlist_references)
    }

    /// What may be logged of the output: its size, not its contents.
    pub fn summary(&self) -> (text: String)
        ensures
            text@ == "ChartsQueryOutput { section_count: "@ + decimal_digits(self@.sections.len())
                + ", playlist_reference_count: "@ + decimal_digits(self@.references.len())
                + ", .. }"@,
    {
        let mut text = String::new();
        text.append("ChartsQueryOutput { section_count: ");
        append_decimal(&mut text, self.sections.len() as u64);
        text.append(", playlist_reference_count: ");
        append_decimal(&mut text, self.playlist_references.len() as u64);
        text.append(", .. }");
        assert(text@ =~= "ChartsQueryOutput { section_count: "@ + decimal_digits(
            self@.sections.len(),
        ) + ", playlist_reference_count: "@ + decimal_digits(self@.references.len()) + ", .. }"@);
        text
    }
}

/// What an encoded chart document gives: its sections, or the playlists it
/// refers to where it has no usable items, or nothing where it is rejected.
pub open spec fn chart_output(document: JsonView) -> Option<OutputView> {
    match chart_report(document) {
        Ok(report) => Some(OutputView { sections: report.0, references: Seq::empty() }),
        Err(ParseError::UnusableResponse { response }) => match document_references(document) {
            Ok(references) => Some(OutputView { sections: Seq::empty(), references }),
            Err(_) => None,
        },
        Err(_) => None,
    }
}

/// Collects written bytes up to a limit and drops the rest.
pub struct CappedWriter {
    bytes: Vec<u8>,
    limit: usize,
}

impl CappedWriter {
    pub closed spec fn written(self) -> Seq<u8> {
        self.bytes@
    }

    pub closed spec fn capacity(self) -> usize {
        self.limit
    }

    /// What every writer keeps: it never holds more than its limit.
    pub open spec fn wf(self) -> bool {
        self.written().len() <= self.capacity()
    }

    pub fn new(limit: usize) -> (writer: Self)
        ensures
            writer.wf(),
            writer.written().len() == 0,
            writer.capacity() == limit,
    {
        CappedWriter { bytes: Vec::new(), limit }
    }

    /// Takes as much of `buffer` as fits, and says how much that is.
    pub fn accept(&mut self, buffer: &[u8]) -> (taken: usize)
        ensures
            old(self).wf() ==> final(self).wf(),
            final(self).capacity() == old(self).capacity(),
            taken == taken_bytes(
                old(self).written().len() as int,
                buffer@.len() as int,
                old(self).capacity() as int,
            ),
            final(self).written() == old(self).written() + buffer@.take(taken as int),
    {
        let writable: usize = self.limit.saturating_sub(self.bytes.len());
        let written: usize = if writable < buffer.len() {
            writable
        } else {
            buffer.len()
        };
        let mut index: usize = 0;
        let ghost before = self.bytes@;
        assert(before + buffer@.take(0) =~= before);
        while index < written
            invariant
                index <= written <= buffer.len(),
                self.limit == old(self).limit,
                self.bytes@ == before + buffer@.take(index as int),
                before == old(self).bytes@,
            decreases written - index,
        {
            self.bytes.push(buffer[index]);
            index = index + 1;
            assert(before + buffer@.take(index as int) =~= (before + buffer@.take(
                index - 1,
            )).push(buffer@[index - 1]));
        }
        written
    }

    pub fn into_bytes(self) -> (bytes: Vec<u8>)
        ensures
            bytes@ == self.written(),
    {
        self.bytes
    }
}

/// How many of `offered` bytes a writer takes that holds `held` and has room for
/// `limit`.
pub open spec fn taken_bytes(held: int, offered: int, limit: int) -> int {
    if limit <= held {
        0
    } else if limit - held < offered {
        limit - held
    } else {
        offered
    }
}

/// std's error of readers and writers.
#[verifier::external_type_specification]
#[verifier::external_body]
pub struct ExternalIoError(std::io::Error);

impl std::io::Write for CappedWriter {
    fn write(&mut self, buffer: &[u8]) -> (taken: Result<usize, std::io::Error>)
        ensures
            final(self).capacity() == old(self).capacity(),
            taken matches Ok(count) && count == taken_bytes(
                old(self).written().len() as int,
                buffer@.len() as int,
                old(self).capacity() as int,
            ) && final(self).written() == old(self).written() + buffer@.take(count as int),
    {
        Ok(self.accept(buffer))
    }

    fn flush(&mut self) -> (done: Result<(), std::io::Error>)
        ensures
            done is Ok,
            *final(self) == *old(self),
    {
        Ok(())
    }
}

/// What a writer with room for `limit` bytes keeps of `whole`.
pub open spec fn capped(whole: Seq<u8>, limit: int) -> Seq<u8> {
    if whole.len() <= limit {
        whole
    } else {
        whole.take(limit)
    }
}

/// However a text is cut into writes, a writer keeps its first bytes: after
/// one more write it keeps what it would have kept of everything so far.
pub proof fn law_capped_writes_keep_a_prefix(before: Seq<u8>, buffer: Seq<u8>, limit: int)
    requires
        0 <= limit,
    ensures
        capped(before, limit) + buffer.take(
            taken_bytes(capped(before, limit).len() as int, buffer.len() as int, limit),
        ) == capped(before + buffer, limit),
{
    let taken = taken_bytes(capped(before, limit).len() as int, buffer.len() as int, limit);
    assert(capped(before, limit) + buffer.take(taken) =~= capped(before + buffer, limit));
}

/// The text that `serde_json::to_writer` writes for a value, as bytes.
pub uninterp spec fn json_text(value: serde_json::Value) -> Seq<u8>;

/// Writes a value into an empty writer with `serde_json::to_writer`. The text
/// follows from the value alone and comes in pieces, each of which is offered to
/// the writer until it takes it whole; where the writer is full, writing ends
/// there. Nothing but a full writer keeps a value from being written.
#[verifier::external_body]
fn write_json(writer: &mut CappedWriter, value: &serde_json::Value)
    requires
        old(writer).written().len() == 0,
    ensures
        final(writer).capacity() == old(writer).capacity(),
        final(writer).written() == capped(json_text(*value), old(writer).capacity() as int),
{
    let _ = serde_json::to_writer(writer, value);
}

/// The text of a processed chart response, up to one byte more than is accepted,
/// so that a response that is too large is seen to be.
pub fn encode_processed_chart_value(value: &serde_json::Value) -> (encoded: Vec<u8>)
    ensures
        encoded@ == capped(json_text(*value), MAX_RESPONSE_BYTES + 1),
{
    let mut writer = CappedWriter::new(MAX_RESPONSE_BYTES + 1);
    write_json(&mut writer, value);
    writer.into_bytes()
}

/// What a processed chart response gives.
pub fn normalize_processed_chart_value(value: &serde_json::Value) -> (output: Option<
    ChartsQueryOutput,
>)
    ensures
        is_output(capped(json_text(*value), MAX_RESPONSE_BYTES + 1), output),
{
    let encoded = encode_processed_chart_value(value);
    normalize_processed_chart_bytes(encoded.as_slice())
}

/// Whether `output` is what an encoded response gives.
pub open spec fn is_output(encoded: Seq<u8>, output: Option<ChartsQueryOutput>) -> bool {
    match (response_document(encoded, "charts"), output) {
        (Ok(document), Some(output)) => chart_output(document) == Some(output@),
        (Ok(document), None) => chart_output(document) is None,
        (Err(_), output) => output is None,
    }
}

/// Reads what a processed chart response, encoded again, gives. Nothing of a
/// rejected response is kept.
pub fn normalize_processed_chart_bytes(encoded: &[u8]) -> (output: Option<ChartsQueryOutput>)
    ensures
        is_output(encoded@, output),
{
    match parse_chart_response(encoded) {
        Ok(report) => {
            let output = ChartsQueryOutput::from_sections(report.value);
            assert(output@.references =~= Seq::empty());
            Some(output)
        },
        Err(ParseError::UnusableResponse { response }) => {
            match parse_chart_playlist_references(encoded) {
                Ok(references) => {
                    let output = ChartsQueryOutput::from_playlist_references(references);
                    assert(output@.sections =~= Seq::empty());
                    Some(output)
                },
                Err(_) => None,
            }
        },
        Err(_) => None,
    }
}


} // verus!
