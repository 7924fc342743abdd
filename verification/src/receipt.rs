//! Receipts: what a run read and wrote, and what came of its validation.

use crate::graph::{GraphCounts, Tally};
use crate::text;
use crate::text::push_decimal;
use vstd::prelude::*;
use vstd::utf8::*;

verus! {

/// The text that `String::from_utf8_lossy` makes of bytes.
pub uninterp spec fn lossy_utf8(bytes: Seq<u8>) -> Seq<char>;

/// `String::from_utf8_lossy`: valid UTF-8 as the text that it encodes; in any other bytes the
/// faulty parts give way to replacement characters.
#[verifier::external_body]
fn lossy_text(bytes: &[u8]) -> (r: String)
    ensures
        r@ == lossy_utf8(bytes@),
        valid_utf8(bytes@) ==> r@ == decode_utf8(bytes@),
{
    String::from_utf8_lossy(bytes).into_owned()
}

/// What came of the validation of a graph.
#[derive(Debug)]
pub struct ValidationReceipt {
    pub validator: String,
    pub requested: bool,
    pub exit_code: Option<i32>,
    pub stdout: String,
    pub stderr: String,
    pub validated: bool,
}

/// What a validation receipt says.
pub struct ValidationRecord {
    pub validator: Seq<char>,
    pub requested: bool,
    pub exit_code: Option<i32>,
    pub stdout: Seq<char>,
    pub stderr: Seq<char>,
    pub validated: bool,
}

impl View for ValidationReceipt {
    type V = ValidationRecord;

    open spec fn view(&self) -> ValidationRecord {
        ValidationRecord {
            validator: self.validator@,
            requested: self.requested,
            exit_code: self.exit_code,
            stdout: self.stdout@,
            stderr: self.stderr@,
            validated: self.validated,
        }
    }
}

/// No validation was asked for.
pub open spec fn no_validation() -> ValidationRecord {
    ValidationRecord {
        validator: "open-ontologies"@,
        requested: false,
        exit_code: None,
        stdout: seq![],
        stderr: seq![],
        validated: false,
    }
}

/// What a validator that ran to its end leaves: its exit code, where it has one, what it wrote,
/// and whether it succeeded.
#[derive(Debug)]
pub struct ValidatorOutput {
    pub exit_code: Option<i32>,
    pub stdout: Vec<u8>,
    pub stderr: Vec<u8>,
    pub success: bool,
}

/// What a validator leaves, as mathematical values.
pub struct ValidatorReport {
    pub exit_code: Option<i32>,
    pub stdout: Seq<u8>,
    pub stderr: Seq<u8>,
    pub success: bool,
}

impl View for ValidatorOutput {
    type V = ValidatorReport;

    open spec fn view(&self) -> ValidatorReport {
        ValidatorReport {
            exit_code: self.exit_code,
            stdout: self.stdout@,
            stderr: self.stderr@,
            success: self.success,
        }
    }
}

/// A validator ran to its end.
pub open spec fn completed_validation(
    validator: Seq<char>,
    report: ValidatorReport,
) -> ValidationRecord {
    ValidationRecord {
        validator,
        requested: true,
        exit_code: report.exit_code,
        stdout: lossy_utf8(report.stdout),
        stderr: lossy_utf8(report.stderr),
        validated: report.success,
    }
}

impl ValidationReceipt {
    /// The receipt of a run without validation.
    pub fn not_requested() -> (r: ValidationReceipt)
        ensures
            r@ == no_validation(),
    {
        ValidationReceipt {
            validator: "open-ontologies".to_owned(),
            requested: false,
            exit_code: None,
            stdout: String::new(),
            stderr: String::new(),
            validated: false,
        }
    }

    /// The receipt of a validator that ran to its end.
    pub fn completed(validator: String, output: &ValidatorOutput) -> (r: ValidationReceipt)
        ensures
            r@ == completed_validation(validator@, output@),
            valid_utf8(output@.stdout) ==> r@.stdout == decode_utf8(output@.stdout),
            valid_utf8(output@.stderr) ==> r@.stderr == decode_utf8(output@.stderr),
    {
        ValidationReceipt {
            validator,
            requested: true,
            exit_code: output.exit_code,
            stdout: lossy_text(output.stdout.as_slice()),
            stderr: lossy_text(output.stderr.as_slice()),
            validated: output.success,
        }
    }

    /// A validation was asked for and did not succeed.
    pub fn refused(&self) -> (r: bool)
        ensures
            r == (self@.requested && !self@.validated),
    {
        self.requested && !self.validated
    }
}

/// What a run read and wrote.
#[derive(Debug)]
pub struct SemanticDocumentationReceipt {
    pub schema_version: &'static str,
    pub extractor: &'static str,
    pub rustdoc_format_version: u64,
    pub repository: String,
    pub revision: String,
    pub input: String,
    pub output: String,
    pub item_count: usize,
    pub documented_item_count: usize,
    pub reference_count: usize,
    pub source_span_count: usize,
    pub authority: &'static str,
    pub standing: &'static str,
    pub validation: ValidationReceipt,
    pub falsifiers: Vec<&'static str>,
}

/// What a receipt says.
pub struct ReceiptRecord {
    pub schema_version: Seq<char>,
    pub extractor: Seq<char>,
    pub rustdoc_format_version: u64,
    pub repository: Seq<char>,
    pub revision: Seq<char>,
    pub input: Seq<char>,
    pub output: Seq<char>,
    pub tally: Tally,
    pub authority: Seq<char>,
    pub standing: Seq<char>,
    pub validation: ValidationRecord,
    pub falsifiers: Seq<Seq<char>>,
}

impl View for SemanticDocumentationReceipt {
    type V = ReceiptRecord;

    open spec fn view(&self) -> ReceiptRecord {
        ReceiptRecord {
            schema_version: self.schema_version@,
            extractor: self.extractor@,
            rustdoc_format_version: self.rustdoc_format_version,
            repository: self.repository@,
            revision: self.revision@,
            input: self.input@,
            output: self.output@,
            tally: Tally {
                items: self.item_count as nat,
                documented: self.documented_item_count as nat,
                references: self.reference_count as nat,
                spans: self.source_span_count as nat,
            },
            authority: self.authority@,
            standing: self.standing@,
            validation: self.validation@,
            falsifiers: self.falsifiers@.map_values(|s: &'static str| s@),
        }
    }
}

/// What would show a receipt to be wrong.
pub open spec fn falsifier_texts() -> Seq<Seq<char>> {
    seq![
        "repository or exact revision identity is absent"@,
        "Rustdoc JSON lacks format_version or index"@,
        "semantic graph cannot be written"@,
        "requested Open Ontologies validation returns non-zero"@,
        "same input/repository/revision produces different TriG bytes"@,
        "emitted semantic subject diverges from semantic-documentation-contract vocabulary"@,
    ]
}

/// The receipt of a run. It claims no authority, and its standing does not depend on the
/// validation: what was validated is the document, not the claims that it makes.
pub open spec fn receipt_record(
    format_version: u64,
    repository: Seq<char>,
    revision: Seq<char>,
    input: Seq<char>,
    output: Seq<char>,
    tally: Tally,
    validation: ValidationRecord,
) -> ReceiptRecord {
    ReceiptRecord {
        schema_version: "litho.semantic-documentation.receipt/v1"@,
        extractor: "rustdoc-json"@,
        rustdoc_format_version: format_version,
        repository,
        revision,
        input,
        output,
        tally,
        authority: "none"@,
        standing: "PARTIAL_ALIVE"@,
        validation,
        falsifiers: falsifier_texts(),
    }
}

/// The line that sums a receipt up.
pub open spec fn summary_text(record: ReceiptRecord) -> Seq<char> {
    "semantic documentation: items="@ + text::decimal(record.tally.items) + " documented="@
        + text::decimal(record.tally.documented) + " references="@ + text::decimal(
        record.tally.references,
    ) + " spans="@ + text::decimal(record.tally.spans) + " standing="@ + record.standing
        + " authority="@ + record.authority
}

fn falsifiers() -> (r: Vec<&'static str>)
    ensures
        r@.map_values(|s: &'static str| s@) == falsifier_texts(),
{
    let mut r: Vec<&'static str> = Vec::new();
    r.push("repository or exact revision identity is absent");
    r.push("Rustdoc JSON lacks format_version or index");
    r.push("semantic graph cannot be written");
    r.push("requested Open Ontologies validation returns non-zero");
    r.push("same input/repository/revision produces different TriG bytes");
    r.push("emitted semantic subject diverges from semantic-documentation-contract vocabulary");
    assert(r@.map_values(|s: &'static str| s@) =~= falsifier_texts());
    r
}

impl SemanticDocumentationReceipt {
    /// Draws up the receipt of a run.
    pub fn new(
        format_version: u64,
        repository: String,
        revision: String,
        input: String,
        output: String,
        counts: GraphCounts,
        validation: ValidationReceipt,
    ) -> (r: SemanticDocumentationReceipt)
        ensures
            r@ == receipt_record(
                format_version,
                repository@,
                revision@,
                input@,
                output@,
                counts@,
                validation@,
            ),
    {
        SemanticDocumentationReceipt {
            schema_version: "litho.semantic-documentation.receipt/v1",
            extractor: "rustdoc-json",
            rustdoc_format_version: format_version,
            repository,
            revision,
            input,
            output,
            item_count: counts.item_count,
            documented_item_count: counts.documented_item_count,
            reference_count: counts.reference_count,
            source_span_count: counts.source_span_count,
            authority: "none",
            standing: "PARTIAL_ALIVE",
            validation,
            falsifiers: falsifiers(),
        }
    }

    /// The line that sums the receipt up.
    pub fn summary(&self) -> (r: String)
        ensures
            r@ == summary_text(self@),
    {
        let mut out = "semantic documentation: items=".to_owned();
        push_decimal(&mut out, self.item_count as u64);
        out.push_str(" documented=");
        push_decimal(&mut out, self.documented_item_count as u64);
        out.push_str(" references=");
        push_decimal(&mut out, self.reference_count as u64);
        out.push_str(" spans=");
        push_decimal(&mut out, self.source_span_count as u64);
        out.push_str(" standing=");
        out.push_str(self.standing);
        out.push_str(" authority=");
        out.push_str(self.authority);
        out
    }
}

/// Whatever came of the validation, a receipt claims no authority and no more than partial
/// standing.
pub proof fn law_standing_is_not_upgraded(
    format_version: u64,
    repository: Seq<char>,
    revision: Seq<char>,
    input: Seq<char>,
    output: Seq<char>,
    tally: Tally,
    validation: ValidationRecord,
)
    ensures
        receipt_record(
            format_version,
            repository,
            revision,
            input,
            output,
            tally,
            validation,
        ).authority == "none"@,
        receipt_record(
            format_version,
            repository,
            revision,
            input,
            output,
            tally,
            validation,
        ).standing == "PARTIAL_ALIVE"@,
{
}

/// A receipt hands on what it is drawn up from: the version, the identities, the paths, each count
/// under its own name, and the validation.
pub proof fn law_receipt_hands_on(
    format_version: u64,
    repository: Seq<char>,
    revision: Seq<char>,
    input: Seq<char>,
    output: Seq<char>,
    tally: Tally,
    validation: ValidationRecord,
)
    ensures
        ({
            let record = receipt_record(
                format_version,
                repository,
                revision,
                input,
                output,
                tally,
                validation,
            );
            &&& record.schema_version == "litho.semantic-documentation.receipt/v1"@
            &&& record.extractor == "rustdoc-json"@
            &&& record.rustdoc_format_version == format_version
            &&& record.repository == repository
            &&& record.revision == revision
            &&& record.input == input
            &&& record.output == output
            &&& record.tally.items == tally.items
            &&& record.tally.documented == tally.documented
            &&& record.tally.references == tally.references
            &&& record.tally.spans == tally.spans
            &&& record.validation == validation
            &&& record.falsifiers.len() == 6
        }),
{
}

/// What a receipt says is what its fields hold, each count under its own name.
pub proof fn law_receipt_says_its_fields(receipt: SemanticDocumentationReceipt)
    ensures
        receipt@.tally.items == receipt.item_count,
        receipt@.tally.documented == receipt.documented_item_count,
        receipt@.tally.references == receipt.reference_count,
        receipt@.tally.spans == receipt.source_span_count,
        receipt@.repository == receipt.repository@,
        receipt@.revision == receipt.revision@,
        receipt@.input == receipt.input@,
        receipt@.output == receipt.output@,
        receipt@.rustdoc_format_version == receipt.rustdoc_format_version,
        receipt@.schema_version == receipt.schema_version@,
        receipt@.extractor == receipt.extractor@,
        receipt@.authority == receipt.authority@,
        receipt@.standing == receipt.standing@,
        receipt@.validation.validator == receipt.validation.validator@,
        receipt@.validation.requested == receipt.validation.requested,
        receipt@.validation.exit_code == receipt.validation.exit_code,
        receipt@.validation.stdout == receipt.validation.stdout@,
        receipt@.validation.stderr == receipt.validation.stderr@,
        receipt@.validation.validated == receipt.validation.validated,
{
}

/// A validation that took place says by whom it was done, what came of it, and what was written to
/// which stream; it is a success exactly where the validator was one.
pub proof fn law_validation_hands_on(validator: Seq<char>, report: ValidatorReport)
    ensures
        ({
            let record = completed_validation(validator, report);
            &&& record.validator == validator
            &&& record.requested
            &&& record.exit_code == report.exit_code
            &&& record.stdout == lossy_utf8(report.stdout)
            &&& record.stderr == lossy_utf8(report.stderr)
            &&& record.validated == report.success
        }),
        !no_validation().requested,
        !no_validation().validated,
        no_validation().exit_code is None,
        no_validation().validator == "open-ontologies"@,
        no_validation().stdout.len() == 0,
        no_validation().stderr.len() == 0,
{
}

/// The numbers of a summary line: digits that stand for them.
pub open spec fn numbers_of(record: ReceiptRecord, digits: Seq<Seq<char>>) -> bool {
    &&& digits.len() == 4
    &&& text::digits_value(digits[0]) == record.tally.items
    &&& text::digits_value(digits[1]) == record.tally.documented
    &&& text::digits_value(digits[2]) == record.tally.references
    &&& text::digits_value(digits[3]) == record.tally.spans
    &&& forall|k: int, i: int|
        0 <= k < 4 && 0 <= i < digits[k].len() ==> '0' <= #[trigger] digits[k][i] <= '9'
}

/// A summary line gives the four counts, each behind its own name, then the standing and the
/// authority.
pub proof fn law_summary_reads_back(record: ReceiptRecord)
    ensures
        exists|digits: Seq<Seq<char>>| #[trigger]
            numbers_of(record, digits) && summary_text(record)
                == "semantic documentation: items="@ + digits[0] + " documented="@ + digits[1]
                + " references="@ + digits[2] + " spans="@ + digits[3] + " standing="@
                + record.standing + " authority="@ + record.authority,
{
    let digits = seq![
        text::decimal(record.tally.items),
        text::decimal(record.tally.documented),
        text::decimal(record.tally.references),
        text::decimal(record.tally.spans),
    ];
    text::law_decimal_reads_back(record.tally.items);
    text::law_decimal_reads_back(record.tally.documented);
    text::law_decimal_reads_back(record.tally.references);
    text::law_decimal_reads_back(record.tally.spans);
    assert(numbers_of(record, digits));
}

/// What a validator leaves says what its fields hold, each stream under its own name.
pub proof fn law_output_says_its_fields(output: ValidatorOutput, receipt: ValidationReceipt)
    ensures
        output@.exit_code == output.exit_code,
        output@.stdout == output.stdout@,
        output@.stderr == output.stderr@,
        output@.success == output.success,
        receipt@.validator == receipt.validator@,
        receipt@.requested == receipt.requested,
        receipt@.exit_code == receipt.exit_code,
        receipt@.stdout == receipt.stdout@,
        receipt@.stderr == receipt.stderr@,
        receipt@.validated == receipt.validated,
{
}

} // verus!
