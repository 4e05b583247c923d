//! Tabular output: headers, row formatting, and the marker column.
//!
//! Each sink has a fixed column schema; the active schema of a run is
//! the fixed columns followed by the marker columns resolved once from
//! the run configuration: nothing, a single constant column, or one
//! column per key of a JSON object (in ascending key order).  Every
//! formatted row carries the marker values as its trailing columns.
//! A field holding a comma, a quote or a line break is quoted with
//! inner quotes doubled, as tabular readers expect.

use vstd::prelude::*;

use crate::comp::{BranchRecord, BranchRecordView, DistanceRecord, DistanceRecordView};
use crate::comp::{TopologyRecord, TopologyRecordView};
use crate::errors::PipelineError;
use crate::num::{dec_rep, usize_to_string};

verus! {

/// The three kinds of output sink.
#[derive(Debug)]
pub enum CSVType {
    /// Topology comparison rows.
    Trees,
    /// Pairwise distance comparison rows.
    Distances,
    /// Branch length comparison rows.
    Branches,
}

/// The fixed column header of each sink.
pub open spec fn header_spec(t: CSVType) -> Seq<char> {
    match t {
        CSVType::Trees => "id,size,rf,norm_rf,rf_weight,kf_score"@,
        CSVType::Branches => "id,ref_len,ref_depth,comp_len,comp_depth"@,
        CSVType::Distances => "id,ref,comp"@,
    }
}

/// The header of the fixed columns of one sink.
pub fn get_header_string(csv_type: CSVType) -> (r: String)
    ensures
        r@ == header_spec(csv_type),
{
    match csv_type {
        CSVType::Trees => String::from_str("id,size,rf,norm_rf,rf_weight,kf_score"),
        CSVType::Branches => String::from_str("id,ref_len,ref_depth,comp_len,comp_depth"),
        CSVType::Distances => String::from_str("id,ref,comp"),
    }
}

/// Append the marker columns to a row.
pub fn add_marker(csv: &mut String, markers: &str)
    ensures
        final(csv)@ == old(csv)@ + ","@ + markers@,
{
    csv.append(",");
    csv.append(markers);
    proof {
        assert(csv@ =~= old(csv)@ + ","@ + markers@);
    }
}

/// Whether a field must be quoted to survive in a csv row.
pub open spec fn needs_quoting(s: Seq<char>) -> bool {
    s.contains(',') || s.contains('"') || s.contains('\n') || s.contains('\r')
}

/// `s` with every quote doubled.
pub open spec fn escape_quotes(s: Seq<char>) -> Seq<char>
    decreases s.len(),
{
    if s.len() == 0 {
        s
    } else if s.last() == '"' {
        escape_quotes(s.drop_last()).push('"').push('"')
    } else {
        escape_quotes(s.drop_last()).push(s.last())
    }
}

/// A csv field: wrapped in quotes with inner quotes doubled when it
/// holds a comma, a quote or a line break; unchanged otherwise.
pub open spec fn csv_field(s: Seq<char>) -> Seq<char> {
    if needs_quoting(s) {
        seq!['"'] + escape_quotes(s) + seq!['"']
    } else {
        s
    }
}

/// The columns of a listing, each quoted as a csv field.
pub open spec fn quoted_fields(xs: Seq<Seq<char>>) -> Seq<Seq<char>> {
    xs.map_values(|s: Seq<char>| csv_field(s))
}

/// Whether a field holds a comma, a quote or a line break.
fn contains_special(s: &str) -> (r: bool)
    ensures
        r == needs_quoting(s@),
{
    let n = s.unicode_len();
    let mut i: usize = 0;
    while i < n
        invariant
            i <= n,
            n == s@.len(),
            forall|k: int|
                0 <= k < i ==> s@[k] != ',' && s@[k] != '"' && s@[k] != '\n' && s@[k] != '\r',
        decreases n - i,
    {
        let c = s.get_char(i);
        if c == ',' || c == '"' || c == '\n' || c == '\r' {
            proof {
                assert(s@.contains(s@[i as int]));
            }
            return true;
        }
        i += 1;
    }
    proof {
        assert(!s@.contains(','));
        assert(!s@.contains('"'));
        assert(!s@.contains('\n'));
        assert(!s@.contains('\r'));
    }
    false
}

/// Quote a value as one csv field.
pub fn quote_field(s: &str) -> (r: String)
    ensures
        r@ == csv_field(s@),
{
    if !contains_special(s) {
        return String::from_str(s);
    }
    let n = s.unicode_len();
    let mut out = String::from_str("\"");
    proof {
        reveal_strlit("\"");
        assert(out@ =~= seq!['"'] + escape_quotes(s@.take(0)));
    }
    let mut i: usize = 0;
    while i < n
        invariant
            i <= n,
            n == s@.len(),
            out@ == seq!['"'] + escape_quotes(s@.take(i as int)),
        decreases n - i,
    {
        let c = s.get_char(i);
        if c == '"' {
            out.append("\"\"");
            proof {
                reveal_strlit("\"\"");
                assert("\"\""@ =~= seq!['"', '"']);
            }
        } else {
            let piece = s.substring_char(i, i + 1);
            proof {
                assert(piece@ =~= seq![s@[i as int]]);
            }
            out.append(piece);
        }
        i += 1;
        proof {
            assert(s@.take(i as int).drop_last() =~= s@.take(i - 1));
            assert(s@.take(i as int).last() == s@[i - 1]);
            assert(out@ =~= seq!['"'] + escape_quotes(s@.take(i as int)));
        }
    }
    out.append("\"");
    proof {
        reveal_strlit("\"");
        assert(s@.take(n as int) =~= s@);
        assert(out@ =~= csv_field(s@));
    }
    out
}

/// The trailing columns that a marker value adds to a row: nothing, or
/// a comma and the value.
pub open spec fn marker_suffix(m: Option<Seq<char>>) -> Seq<char> {
    match m {
        Some(v) => ","@ + v,
        None => Seq::empty(),
    }
}

/// The text of an optional value column: empty when absent.
pub open spec fn opt_text(o: Option<Seq<char>>) -> Seq<char> {
    match o {
        Some(s) => s,
        None => Seq::empty(),
    }
}

/// The text of an optional numeric column: empty when absent.
pub open spec fn opt_num_text(o: Option<usize>) -> Seq<char> {
    match o {
        Some(n) => dec_rep(n as nat),
        None => Seq::empty(),
    }
}

/// One topology row: `id,size,rf,norm_rf,rf_weight,kf_score` and the
/// marker columns.
pub open spec fn tree_row_spec(v: TopologyRecordView, m: Option<Seq<char>>) -> Seq<char> {
    csv_field(v.id) + ","@ + dec_rep(v.n_tips) + ","@ + csv_field(v.rf) + ","@ + csv_field(
        v.norm_rf,
    ) + ","@ + csv_field(v.weighted_rf) + ","@ + csv_field(v.kf_score) + marker_suffix(m)
}

/// One branch row: `id,ref_len,ref_depth,comp_len,comp_depth` and the
/// marker columns; an absent field is an empty column.
pub open spec fn branch_row_spec(v: BranchRecordView, m: Option<Seq<char>>) -> Seq<char> {
    csv_field(v.id) + ","@ + csv_field(opt_text(v.ref_len)) + ","@ + opt_num_text(v.ref_depth)
        + ","@ + csv_field(opt_text(v.cmp_len)) + ","@ + opt_num_text(v.cmp_depth)
        + marker_suffix(m)
}

/// One distance row: `id,ref,comp` and the marker columns.
pub open spec fn dist_row_spec(v: DistanceRecordView, m: Option<Seq<char>>) -> Seq<char> {
    csv_field(v.id) + ","@ + csv_field(v.ref_dist) + ","@ + csv_field(v.cmp_dist)
        + marker_suffix(m)
}

/// Format a topology comparison as a csv row.
pub fn format_tree_record(rec: &TopologyRecord, markers: Option<&str>) -> (r: String)
    ensures
        r@ == tree_row_spec(rec@, markers.deep_view()),
{
    let mut csv = quote_field(rec.id.as_str());
    csv.append(",");
    csv.append(usize_to_string(rec.n_tips).as_str());
    csv.append(",");
    csv.append(quote_field(rec.rf.as_str()).as_str());
    csv.append(",");
    csv.append(quote_field(rec.norm_rf.as_str()).as_str());
    csv.append(",");
    csv.append(quote_field(rec.weighted_rf.as_str()).as_str());
    csv.append(",");
    csv.append(quote_field(rec.kf_score.as_str()).as_str());
    if let Some(m) = markers {
        add_marker(&mut csv, m);
    }
    proof {
        assert(csv@ =~= tree_row_spec(rec@, markers.deep_view()));
    }
    csv
}

/// Format a branch length comparison as a csv row.
pub fn format_branch_record(rec: &BranchRecord, markers: Option<&str>) -> (r: String)
    ensures
        r@ == branch_row_spec(rec@, markers.deep_view()),
{
    let mut csv = quote_field(rec.id.as_str());
    csv.append(",");
    match &rec.ref_len {
        Some(l) => csv.append(quote_field(l.as_str()).as_str()),
        None => (),
    }
    csv.append(",");
    match &rec.ref_depth {
        Some(d) => csv.append(usize_to_string(*d).as_str()),
        None => (),
    }
    csv.append(",");
    match &rec.cmp_len {
        Some(l) => csv.append(quote_field(l.as_str()).as_str()),
        None => (),
    }
    csv.append(",");
    match &rec.cmp_depth {
        Some(d) => csv.append(usize_to_string(*d).as_str()),
        None => (),
    }
    if let Some(m) = markers {
        add_marker(&mut csv, m);
    }
    proof {
        assert(csv_field(Seq::<char>::empty()) =~= Seq::<char>::empty());
        assert(csv@ =~= branch_row_spec(rec@, markers.deep_view()));
    }
    csv
}

/// Format a pairwise distance comparison as a csv row.
pub fn format_distance_record(rec: &DistanceRecord, markers: Option<&str>) -> (r: String)
    ensures
        r@ == dist_row_spec(rec@, markers.deep_view()),
{
    let mut csv = quote_field(rec.id.as_str());
    csv.append(",");
    csv.append(quote_field(rec.ref_dist.as_str()).as_str());
    csv.append(",");
    csv.append(quote_field(rec.cmp_dist.as_str()).as_str());
    if let Some(m) = markers {
        add_marker(&mut csv, m);
    }
    proof {
        assert(csv@ =~= dist_row_spec(rec@, markers.deep_view()));
    }
    csv
}

/// The key/value pairs of a JSON object whose values are all strings,
/// in ascending key order; nothing when the text is not such an
/// object.
pub uninterp spec fn json_string_map(s: Seq<char>) -> Option<Seq<(Seq<char>, Seq<char>)>>;

/// Relies on `serde_json::from_str` for a `BTreeMap<String, String>`:
/// parses a JSON object whose values are all strings and hands its
/// pairs out in ascending key order (the iteration order of a
/// `BTreeMap`).
#[verifier::external_body]
fn parse_json_string_map(s: &str) -> (r: Option<Vec<(String, String)>>)
    ensures
        r.deep_view() == json_string_map(s@),
{
    serde_json::from_str::<std::collections::BTreeMap<String, String>>(s).ok().map(
        |m| m.into_iter().collect(),
    )
}

/// The keys of a pair listing.
pub open spec fn keys_of(pairs: Seq<(Seq<char>, Seq<char>)>) -> Seq<Seq<char>> {
    pairs.map_values(|p: (Seq<char>, Seq<char>)| p.0)
}

/// The values of a pair listing.
pub open spec fn vals_of(pairs: Seq<(Seq<char>, Seq<char>)>) -> Seq<Seq<char>> {
    pairs.map_values(|p: (Seq<char>, Seq<char>)| p.1)
}

/// The pieces joined with commas.
pub open spec fn join_seq(xs: Seq<Seq<char>>) -> Seq<char>
    decreases xs.len(),
{
    if xs.len() == 0 {
        Seq::empty()
    } else if xs.len() == 1 {
        xs[0]
    } else {
        join_seq(xs.drop_last()) + ","@ + xs.last()
    }
}

/// Join strings with commas.
fn join_strings(xs: &Vec<String>) -> (r: String)
    ensures
        r@ == join_seq(xs.deep_view()),
{
    let mut out = String::new();
    proof {
        assert(out@ =~= join_seq(xs.deep_view().take(0)));
    }
    let mut i: usize = 0;
    while i < xs.len()
        invariant
            i <= xs@.len(),
            out@ == join_seq(xs.deep_view().take(i as int)),
        decreases xs@.len() - i,
    {
        if i > 0 {
            out.append(",");
        }
        out.append(xs[i].as_str());
        i += 1;
        proof {
            assert(xs.deep_view().take(i as int).drop_last() =~= xs.deep_view().take(i - 1));
            assert(xs.deep_view().take(i as int).last() == xs.deep_view()[i - 1]);
            assert(out@ =~= join_seq(xs.deep_view().take(i as int)));
        }
    }
    proof {
        assert(xs.deep_view().take(xs.deep_view().len() as int) =~= xs.deep_view());
    }
    out
}

/// Split a pair listing into its keys and its values.
fn split_pairs(pairs: &Vec<(String, String)>) -> (r: (Vec<String>, Vec<String>))
    ensures
        r.0.deep_view() == keys_of(pairs.deep_view()),
        r.1.deep_view() == vals_of(pairs.deep_view()),
{
    let mut keys: Vec<String> = Vec::new();
    let mut vals: Vec<String> = Vec::new();
    proof {
        assert(keys.deep_view() =~~= keys_of(pairs.deep_view()).take(0));
        assert(vals.deep_view() =~~= vals_of(pairs.deep_view()).take(0));
    }
    let mut i: usize = 0;
    while i < pairs.len()
        invariant
            i <= pairs@.len(),
            keys@.len() == i,
            vals@.len() == i,
            keys.deep_view() == keys_of(pairs.deep_view()).take(i as int),
            vals.deep_view() == vals_of(pairs.deep_view()).take(i as int),
        decreases pairs@.len() - i,
    {
        let p = &pairs[i];
        keys.push(p.0.clone());
        vals.push(p.1.clone());
        i += 1;
        proof {
            assert(keys.deep_view() =~~= keys_of(pairs.deep_view()).take(i as int));
            assert(vals.deep_view() =~~= vals_of(pairs.deep_view()).take(i as int));
        }
    }
    proof {
        assert(keys_of(pairs.deep_view()).take(pairs.deep_view().len() as int) =~~= keys_of(
            pairs.deep_view(),
        ));
        assert(vals_of(pairs.deep_view()).take(pairs.deep_view().len() as int) =~~= vals_of(
            pairs.deep_view(),
        ));
    }
    (keys, vals)
}

/// Quote every entry of a listing as a csv field.
fn quote_all(xs: &Vec<String>) -> (r: Vec<String>)
    ensures
        r.deep_view() == quoted_fields(xs.deep_view()),
{
    let mut out: Vec<String> = Vec::new();
    proof {
        assert(out.deep_view() =~~= quoted_fields(xs.deep_view()).take(0));
    }
    let mut i: usize = 0;
    while i < xs.len()
        invariant
            i <= xs@.len(),
            out@.len() == i,
            out.deep_view() == quoted_fields(xs.deep_view()).take(i as int),
        decreases xs@.len() - i,
    {
        out.push(quote_field(xs[i].as_str()));
        i += 1;
        proof {
            assert(out.deep_view() =~~= quoted_fields(xs.deep_view()).take(i as int));
        }
    }
    proof {
        assert(quoted_fields(xs.deep_view()).take(xs.deep_view().len() as int) =~~= quoted_fields(
            xs.deep_view(),
        ));
    }
    out
}

/// Parse a JSON key-value store into csv header and value rows: the
/// keys, each quoted as a csv field, joined with commas, and likewise
/// their values, in ascending key order.  Fails with a configuration
/// fault when the text is not a JSON object whose values are all
/// strings.
pub fn parse_markers(json: &str) -> (r: Result<(String, String), PipelineError>)
    ensures
        r is Ok <==> json_string_map(json@) is Some,
        r matches Ok(hv) ==> {
            &&& json_string_map(json@) matches Some(pairs)
            &&& hv.0@ == join_seq(quoted_fields(keys_of(pairs)))
            &&& hv.1@ == join_seq(quoted_fields(vals_of(pairs)))
        },
        r matches Err(e) ==> e is Config,
{
    match parse_json_string_map(json) {
        Some(pairs) => {
            let (keys, vals) = split_pairs(&pairs);
            Ok((join_strings(&quote_all(&keys)), join_strings(&quote_all(&vals))))
        },
        None => {
            let mut m = String::from_str("could not parse marker as a JSON object: ");
            m.append(json);
            Err(PipelineError::Config(m))
        },
    }
}

/// The marker columns of a run, resolved once from the run
/// configuration: the extra header columns and the extra value
/// columns, both absent when the run has no marker.
#[derive(Debug)]
pub struct Marker {
    /// The extra header columns, joined with commas.
    pub header: Option<String>,
    /// The extra value columns, joined with commas.
    pub values: Option<String>,
}

impl Marker {
    /// Header and values are present together.
    pub open spec fn wf(self) -> bool {
        self.header is Some <==> self.values is Some
    }

    /// The marker value columns, as the row formatters consume them.
    pub open spec fn values_view(self) -> Option<Seq<char>> {
        self.values.deep_view()
    }

    /// The marker header columns.
    pub open spec fn header_view(self) -> Option<Seq<char>> {
        self.header.deep_view()
    }

    /// The marker value columns, for a row formatter.
    pub fn values_str(&self) -> (r: Option<&str>)
        ensures
            r.deep_view() == self.values_view(),
    {
        match &self.values {
            Some(v) => Some(v.as_str()),
            None => None,
        }
    }
}

/// Resolve the run's marker argument into marker columns: no argument
/// means no marker columns; an argument that parses as a non-empty
/// JSON object whose values are all strings becomes one column per
/// key, in ascending key order; an empty JSON object becomes no
/// columns; any other argument becomes a single constant column under
/// the header `marker`.  Every column is quoted as a csv field.
pub fn resolve_marker(arg: &Option<String>) -> (r: Marker)
    ensures
        r.wf(),
        arg is None ==> r.values_view() is None,
        arg matches Some(s) ==> match json_string_map(s@) {
            Some(pairs) => if pairs.len() == 0 {
                r.values_view() is None
            } else {
                r.header_view() == Some(join_seq(quoted_fields(keys_of(pairs))))
                    && r.values_view() == Some(join_seq(quoted_fields(vals_of(pairs))))
            },
            None => r.header_view() == Some("marker"@) && r.values_view() == Some(csv_field(s@)),
        },
{
    match arg {
        None => Marker { header: None, values: None },
        Some(s) => {
            match parse_json_string_map(s.as_str()) {
                Some(pairs) => {
                    if pairs.len() == 0 {
                        Marker { header: None, values: None }
                    } else {
                        let (keys, vals) = split_pairs(&pairs);
                        Marker {
                            header: Some(join_strings(&quote_all(&keys))),
                            values: Some(join_strings(&quote_all(&vals))),
                        }
                    }
                },
                None => Marker {
                    header: Some(String::from_str("marker")),
                    values: Some(quote_field(s.as_str())),
                },
            }
        },
    }
}

/// The full header of one sink: the fixed columns and the marker
/// header columns.
pub fn full_header(csv_type: CSVType, marker: &Marker) -> (r: String)
    ensures
        r@ == header_spec(csv_type) + marker_suffix(marker.header_view()),
{
    let mut h = get_header_string(csv_type);
    match &marker.header {
        Some(m) => {
            add_marker(&mut h, m.as_str());
        },
        None => (),
    }
    proof {
        assert(h@ =~= header_spec(csv_type) + marker_suffix(marker.header_view()));
    }
    h
}

} // verus!
