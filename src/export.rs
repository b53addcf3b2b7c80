use vstd::prelude::*;
use crate::config::opt_view;
use crate::order::{failing_of, passing_of};
use crate::outcome::UrlTestResult;
use crate::text::{decimal_of, decimal_string, digits};

verus! {

broadcast use vstd::seq_lib::group_to_multiset_ensures;

/// The views of a list of strings.
pub open spec fn views(v: Seq<String>) -> Seq<Seq<char>> {
    v.map_values(|s: String| s@)
}

/// Appending a string appends its view.
pub broadcast proof fn lemma_views_push(s: Seq<String>, x: String)
    ensures
        #[trigger] views(s.push(x)) == views(s).push(x@),
{
    assert(views(s.push(x)) =~= views(s).push(x@));
}

/// The column names of the export, one per field of a result.
pub open spec fn header_fields() -> Seq<Seq<char>> {
    seq![
        "environment_name"@,
        "url"@,
        "status_code"@,
        "response_body_preview"@,
        "passed"@,
        "error_message"@,
        "duration_secs"@,
        "state_param"@,
    ]
}

/// An optional text as a field: the text, or an empty field when absent.
pub open spec fn opt_field(o: Option<Seq<char>>) -> Seq<char> {
    match o {
        Some(s) => s,
        None => Seq::empty(),
    }
}

/// The last `width` decimal digits of `n`, with leading zeros.
pub open spec fn zero_padded(n: nat, width: nat) -> Seq<char>
    decreases width,
{
    if width == 0 {
        Seq::empty()
    } else {
        zero_padded(n / 10, (width - 1) as nat).push(digits()[(n % 10) as int])
    }
}

/// A duration in nanoseconds written in seconds, with nine decimals.
pub open spec fn seconds_text(nanos: nat) -> Seq<char> {
    decimal_of(nanos / 1_000_000_000) + "."@ + zero_padded(nanos % 1_000_000_000, 9)
}

/// A boolean as `true` or `false`.
pub open spec fn bool_text(b: bool) -> Seq<char> {
    if b {
        "true"@
    } else {
        "false"@
    }
}

/// The fields of the export row of `r`; absent values give empty fields.
pub open spec fn record_of(r: UrlTestResult) -> Seq<Seq<char>> {
    seq![
        r.environment_name@,
        r.url@,
        match r.status_code {
            Some(c) => decimal_of(c as nat),
            None => Seq::empty(),
        },
        r.response_body_preview@,
        bool_text(r.passed),
        opt_field(opt_view(r.error_message)),
        seconds_text(r.duration_nanos as nat),
        opt_field(opt_view(r.state_param)),
    ]
}

/// The last `width` decimal digits of `n`, with leading zeros.
pub fn zero_padded_string(n: u64, width: usize) -> (r: String)
    ensures
        r@ == zero_padded(n as nat, width as nat),
    decreases width,
{
    if width == 0 {
        return String::new();
    }
    proof {
        reveal_strlit("0123456789");
    }
    let d: usize = (n % 10) as usize;
    let mut r = zero_padded_string(n / 10, width - 1);
    r.append("0123456789".substring_char(d, d + 1));
    assert(r@ =~= zero_padded(n as nat, width as nat));
    r
}

/// A duration in nanoseconds written in seconds, with nine decimals.
pub fn seconds_string(nanos: u64) -> (r: String)
    ensures
        r@ == seconds_text(nanos as nat),
{
    let mut r = decimal_string(nanos / 1_000_000_000);
    r.append(".");
    let frac = zero_padded_string(nanos % 1_000_000_000, 9);
    r.append(frac.as_str());
    r
}

/// An optional text as a field.
fn opt_field_string(o: &Option<String>) -> (r: String)
    ensures
        r@ == opt_field(opt_view(*o)),
{
    match o {
        Some(s) => s.clone(),
        None => String::new(),
    }
}

/// The column names of the export.
pub fn export_header() -> (r: Vec<String>)
    ensures
        views(r@) == header_fields(),
{
    let r = vec![
        String::from_str("environment_name"),
        String::from_str("url"),
        String::from_str("status_code"),
        String::from_str("response_body_preview"),
        String::from_str("passed"),
        String::from_str("error_message"),
        String::from_str("duration_secs"),
        String::from_str("state_param"),
    ];
    assert(views(r@) =~= header_fields());
    r
}

/// The export row of one result.
pub fn export_record(res: &UrlTestResult) -> (r: Vec<String>)
    ensures
        views(r@) == record_of(*res),
{
    let status = match res.status_code {
        Some(c) => decimal_string(c as u64),
        None => String::new(),
    };
    let passed = if res.passed {
        String::from_str("true")
    } else {
        String::from_str("false")
    };
    let r = vec![
        res.environment_name.clone(),
        res.url.clone(),
        status,
        res.response_body_preview.clone(),
        passed,
        opt_field_string(&res.error_message),
        seconds_string(res.duration_nanos),
        opt_field_string(&res.state_param),
    ];
    assert(views(r@) =~= record_of(*res));
    r
}

/// The export table: the header, then one row per result of `passing` and then of `failing`,
/// in their order.
pub fn export_rows(passing: &Vec<UrlTestResult>, failing: &Vec<UrlTestResult>) -> (r: Vec<Vec<String>>)
    ensures
        r@.len() == 1 + passing@.len() + failing@.len(),
        views(r@[0]@) == header_fields(),
        forall|i: int|
            0 <= i < passing@.len() + failing@.len() ==> views(#[trigger] r@[i + 1]@) == record_of(
                (passing@ + failing@)[i],
            ),
{
    let mut r: Vec<Vec<String>> = Vec::new();
    r.push(export_header());
    let mut i: usize = 0;
    while i < passing.len()
        invariant
            i <= passing@.len(),
            r@.len() == 1 + i,
            views(r@[0]@) == header_fields(),
            forall|k: int| 0 <= k < i ==> views(#[trigger] r@[k + 1]@) == record_of(passing@[k]),
        decreases passing@.len() - i,
    {
        r.push(export_record(&passing[i]));
        i = i + 1;
    }
    let mut j: usize = 0;
    while j < failing.len()
        invariant
            j <= failing@.len(),
            r@.len() == 1 + passing@.len() + j,
            views(r@[0]@) == header_fields(),
            forall|k: int|
                0 <= k < passing@.len() ==> views(#[trigger] r@[k + 1]@) == record_of(passing@[k]),
            forall|k: int|
                0 <= k < j ==> views(#[trigger] r@[passing@.len() + k + 1]@) == record_of(
                    failing@[k],
                ),
        decreases failing@.len() - j,
    {
        r.push(export_record(&failing[j]));
        j = j + 1;
    }
    assert forall|i: int| 0 <= i < passing@.len() + failing@.len() implies views(
        #[trigger] r@[i + 1]@,
    ) == record_of((passing@ + failing@)[i]) by {
        if i >= passing@.len() {
            let k = i - passing@.len();
            assert(views(r@[passing@.len() + k + 1]@) == record_of(failing@[k]));
        }
    }
    r
}

/// Every result of a run stands once among those that passed and those that failed.
pub proof fn lemma_partition_keeps_results(s: Seq<UrlTestResult>)
    ensures
        passing_of(s).to_multiset().add(failing_of(s).to_multiset()) == s.to_multiset(),
    decreases s.len(),
{
    if s.len() > 0 {
        lemma_partition_keeps_results(s.drop_last());
        assert(s.drop_last().push(s.last()) =~= s);
    }
}

/// Exporting the results of a run in report order writes a header and then exactly one row
/// per result: the rows after the header are the records of a rearrangement of the results,
/// so there are as many of them as results, and each result's record stands once.
pub proof fn lemma_export_round_trip(
    results: Seq<UrlTestResult>,
    passing: Seq<UrlTestResult>,
    failing: Seq<UrlTestResult>,
    rows: Seq<Vec<String>>,
)
    requires
        passing.to_multiset() == passing_of(results).to_multiset(),
        failing.to_multiset() == failing_of(results).to_multiset(),
        rows.len() == 1 + passing.len() + failing.len(),
        views(rows[0]@) == header_fields(),
        forall|i: int|
            0 <= i < passing.len() + failing.len() ==> views(#[trigger] rows[i + 1]@) == record_of(
                (passing + failing)[i],
            ),
    ensures
        rows.len() == results.len() + 1,
        views(rows[0]@) == header_fields(),
        (passing + failing).to_multiset() == results.to_multiset(),
        forall|i: int|
            0 <= i < results.len() ==> views(#[trigger] rows[i + 1]@) == record_of(
                (passing + failing)[i],
            ),
{
    lemma_export_covers_results(results, passing, failing);
}

/// Exporting what the report shows, the passing results and then the failing ones, writes
/// each result of the run exactly once, so the export has as many rows as the run has results.
pub proof fn lemma_export_covers_results(
    results: Seq<UrlTestResult>,
    passing: Seq<UrlTestResult>,
    failing: Seq<UrlTestResult>,
)
    requires
        passing.to_multiset() == passing_of(results).to_multiset(),
        failing.to_multiset() == failing_of(results).to_multiset(),
    ensures
        (passing + failing).to_multiset() == results.to_multiset(),
        (passing + failing).len() == results.len(),
{
    lemma_partition_keeps_results(results);
    vstd::seq_lib::lemma_multiset_commutative(passing, failing);
    (passing + failing).to_multiset_ensures();
    results.to_multiset_ensures();
}

} // verus!

verus! {

/// The CSV bytes of one record, as the csv crate writes it with its default settings.
pub uninterp spec fn csv_record_of(fields: Seq<Seq<char>>) -> Seq<u8>;

/// Relies on `csv::Writer::from_writer`, `csv::Writer::write_record` and
/// `csv::Writer::into_inner` over an in-memory buffer: a fresh writer with the default settings
/// writes the record, whose bytes then depend on the fields alone. The first record of a writer
/// fixes the field count rather than checking it, and writing to or flushing into a `Vec`
/// cannot fail, so the bytes always come back.
#[verifier::external_body]
fn csv_record(fields: &Vec<String>) -> (r: Option<Vec<u8>>)
    ensures
        r is Some,
        r matches Some(b) ==> b@ == csv_record_of(views(fields@)),
{
    let mut w = csv::Writer::from_writer(Vec::new());
    w.write_record(fields).ok()?;
    w.into_inner().ok()
}

/// The CSV bytes of a table: the bytes of each row, one after another.
pub open spec fn csv_table_of(rows: Seq<Vec<String>>) -> Seq<u8>
    decreases rows.len(),
{
    if rows.len() == 0 {
        Seq::empty()
    } else {
        csv_table_of(rows.drop_last()) + csv_record_of(views(rows.last()@))
    }
}

/// The CSV bytes of a table, one record per row.
pub fn encode_csv(rows: &Vec<Vec<String>>) -> (r: Vec<u8>)
    ensures
        r@ == csv_table_of(rows@),
{
    let mut out: Vec<u8> = Vec::new();
    let mut i: usize = 0;
    while i < rows.len()
        invariant
            i <= rows@.len(),
            out@ == csv_table_of(rows@.take(i as int)),
        decreases rows@.len() - i,
    {
        let mut bytes = match csv_record(&rows[i]) {
            Some(b) => b,
            None => Vec::new(),
        };
        proof {
            assert(rows@.take(i + 1).drop_last() =~= rows@.take(i as int));
        }
        out.append(&mut bytes);
        i = i + 1;
    }
    proof {
        assert(rows@.take(rows@.len() as int) =~= rows@);
    }
    out
}

/// The export file: the header and one row per result, the passing ones first, written as CSV.
pub fn export_csv(passing: &Vec<UrlTestResult>, failing: &Vec<UrlTestResult>) -> (r: Vec<u8>)
    ensures
        (exists|rows: Seq<Vec<String>>|
            {
                &&& r@ == csv_table_of(rows)
                &&& rows.len() == 1 + passing@.len() + failing@.len()
                &&& views(rows[0]@) == header_fields()
                &&& forall|i: int|
                    0 <= i < passing@.len() + failing@.len() ==> views(#[trigger] rows[i + 1]@)
                        == record_of((passing@ + failing@)[i])
            }),
{
    let rows = export_rows(passing, failing);
    encode_csv(&rows)
}

} // verus!
