//! From the two artifacts of a proof, a proof document and a list of public
//! signals, to the calldata that the verifying contract takes.

use crate::field::{lemma_field_view_injective, parse_decimal, DecimalError, Field};
use crate::json::{
    json_as_array, json_as_str, json_document, json_from_str, json_item, json_member, json_tree,
    json_trees, JsonTree,
};
use serde_json::Value;
use vstd::prelude::*;
use vstd::string::StringExecFns;
use vstd::string::StrSliceExecFns;

verus! {

/// Why an artifact does not yield calldata.
#[derive(Clone, Copy, Debug, PartialEq, Eq, Structural)]
pub enum ParseError {
    /// The text is no JSON document.
    InvalidJson,
    /// A decimal string was expected and something else, or nothing, was there.
    NotText,
    /// A string holds a character that is no digit.
    NotNumeric,
    /// A string of digits denotes a number of more than 256 bits.
    OutOfRange,
    /// The public signals are no array.
    NotAList,
}

/// Why assembling failed: an artifact could not be read, or could not be
/// understood.
#[derive(Clone, Copy, Debug, PartialEq, Eq, Structural)]
pub enum AssembleError {
    Io,
    Parse(ParseError),
}

/// The arguments of the contract's `transfer`, in its order.
#[derive(Debug, PartialEq, Eq)]
pub struct ProofCalldata {
    pub pi_a: [Field; 2],
    pub pi_b: [[Field; 2]; 2],
    pub pi_c: [Field; 2],
    pub signals: Vec<Field>,
}

/// `ProofCalldata` as numbers.
pub struct CalldataView {
    pub pi_a: Seq<nat>,
    pub pi_b: Seq<Seq<nat>>,
    pub pi_c: Seq<nat>,
    pub signals: Seq<nat>,
}

pub open spec fn pair_view(pair: [Field; 2]) -> Seq<nat> {
    seq![pair[0]@, pair[1]@]
}

pub open spec fn fields_view(fields: Seq<Field>) -> Seq<nat> {
    fields.map_values(|f: Field| f@)
}

impl View for ProofCalldata {
    type V = CalldataView;

    open spec fn view(&self) -> CalldataView {
        CalldataView {
            pi_a: pair_view(self.pi_a),
            pi_b: seq![pair_view(self.pi_b[0]), pair_view(self.pi_b[1])],
            pi_c: pair_view(self.pi_c),
            signals: fields_view(self.signals@),
        }
    }
}

/// The number that one entry of an artifact denotes.
pub open spec fn entry_value(tree: JsonTree) -> Result<nat, ParseError> {
    match tree {
        JsonTree::Text(s) => match parse_decimal(s) {
            Ok(v) => Ok(v),
            Err(DecimalError::InvalidCharacter) => Err(ParseError::NotNumeric),
            Err(DecimalError::InvalidLength) => Err(ParseError::OutOfRange),
        },
        _ => Err(ParseError::NotText),
    }
}

/// The numbers of a list of entries, or the error of the first entry that
/// has one.
pub open spec fn entry_values(items: Seq<JsonTree>) -> Result<Seq<nat>, ParseError>
    decreases items.len(),
{
    if items.len() == 0 {
        Ok(Seq::empty())
    } else {
        match entry_values(items.drop_last()) {
            Err(e) => Err(e),
            Ok(values) => match entry_value(items.last()) {
                Err(e) => Err(e),
                Ok(v) => Ok(values.push(v)),
            },
        }
    }
}

/// The first two entries of an array. Further entries are not looked at.
pub open spec fn pair_values(tree: JsonTree) -> Result<Seq<nat>, ParseError> {
    match entry_value(tree.item(0)) {
        Err(e) => Err(e),
        Ok(x) => match entry_value(tree.item(1)) {
            Err(e) => Err(e),
            Ok(y) => Ok(seq![x, y]),
        },
    }
}

/// The first two rows of an array of arrays, two entries each.
pub open spec fn matrix_values(tree: JsonTree) -> Result<Seq<Seq<nat>>, ParseError> {
    match pair_values(tree.item(0)) {
        Err(e) => Err(e),
        Ok(top) => match pair_values(tree.item(1)) {
            Err(e) => Err(e),
            Ok(bottom) => Ok(seq![top, bottom]),
        },
    }
}

/// The public signals: every entry of the array, in order.
pub open spec fn signal_values(tree: JsonTree) -> Result<Seq<nat>, ParseError> {
    match tree {
        JsonTree::List(items) => entry_values(items),
        _ => Err(ParseError::NotAList),
    }
}

/// The calldata of a proof document and a public-signals document. The
/// points are read in the order `pi_a`, `pi_b`, `pi_c`, then the signals;
/// the first entry that fails gives the error.
pub open spec fn calldata_of_trees(proof: JsonTree, public: JsonTree) -> Result<
    CalldataView,
    ParseError,
> {
    match pair_values(proof.member("pi_a"@)) {
        Err(e) => Err(e),
        Ok(pi_a) => match matrix_values(proof.member("pi_b"@)) {
            Err(e) => Err(e),
            Ok(pi_b) => match pair_values(proof.member("pi_c"@)) {
                Err(e) => Err(e),
                Ok(pi_c) => match signal_values(public) {
                    Err(e) => Err(e),
                    Ok(signals) => Ok(CalldataView { pi_a, pi_b, pi_c, signals }),
                },
            },
        },
    }
}

/// The calldata of two texts once read as JSON.
pub open spec fn calldata_of_documents(
    proof: Option<JsonTree>,
    public: Option<JsonTree>,
) -> Result<CalldataView, ParseError> {
    match (proof, public) {
        (Some(p), Some(q)) => calldata_of_trees(p, q),
        _ => Err(ParseError::InvalidJson),
    }
}

/// The calldata of two artifacts as read from disk, `None` standing for a
/// file that could not be read.
pub open spec fn calldata_of_files(
    proof_file: Option<Seq<char>>,
    public_file: Option<Seq<char>>,
) -> Result<CalldataView, AssembleError> {
    match (proof_file, public_file) {
        (Some(p), Some(q)) => match calldata_of_documents(json_document(p), json_document(q)) {
            Ok(c) => Ok(c),
            Err(e) => Err(AssembleError::Parse(e)),
        },
        _ => Err(AssembleError::Io),
    }
}

pub open spec fn entry_result_view(r: Result<Field, ParseError>) -> Result<nat, ParseError> {
    match r {
        Ok(f) => Ok(f@),
        Err(e) => Err(e),
    }
}

pub open spec fn pair_result_view(r: Result<[Field; 2], ParseError>) -> Result<
    Seq<nat>,
    ParseError,
> {
    match r {
        Ok(p) => Ok(pair_view(p)),
        Err(e) => Err(e),
    }
}

pub open spec fn signals_result_view(r: Result<Vec<Field>, ParseError>) -> Result<
    Seq<nat>,
    ParseError,
> {
    match r {
        Ok(v) => Ok(fields_view(v@)),
        Err(e) => Err(e),
    }
}

pub open spec fn calldata_result_view(r: Result<ProofCalldata, ParseError>) -> Result<
    CalldataView,
    ParseError,
> {
    match r {
        Ok(c) => Ok(c@),
        Err(e) => Err(e),
    }
}

pub open spec fn assemble_result_view(r: Result<ProofCalldata, AssembleError>) -> Result<
    CalldataView,
    AssembleError,
> {
    match r {
        Ok(c) => Ok(c@),
        Err(e) => Err(e),
    }
}

/// Reads one entry: a string of decimal digits.
pub fn read_entry(value: &Value) -> (r: Result<Field, ParseError>)
    ensures
        entry_result_view(r) == entry_value(json_tree(*value)),
{
    match json_as_str(value) {
        None => Err(ParseError::NotText),
        Some(text) => match Field::from_dec_str(text) {
            Ok(f) => Ok(f),
            Err(DecimalError::InvalidCharacter) => Err(ParseError::NotNumeric),
            Err(DecimalError::InvalidLength) => Err(ParseError::OutOfRange),
        },
    }
}

/// Reads the first two entries of an array.
pub fn read_pair(value: &Value) -> (r: Result<[Field; 2], ParseError>)
    ensures
        pair_result_view(r) == pair_values(json_tree(*value)),
{
    let x = match read_entry(json_item(value, 0)) {
        Ok(f) => f,
        Err(e) => { return Err(e); },
    };
    let y = match read_entry(json_item(value, 1)) {
        Ok(f) => f,
        Err(e) => { return Err(e); },
    };
    let pair = [x, y];
    assert(pair_view(pair) =~= seq![x@, y@]);
    Ok(pair)
}

/// Reads every entry of an array.
pub fn read_signals(value: &Value) -> (r: Result<Vec<Field>, ParseError>)
    ensures
        signals_result_view(r) == signal_values(json_tree(*value)),
{
    let items = match json_as_array(value) {
        Some(items) => items,
        None => { return Err(ParseError::NotAList); },
    };
    let ghost trees = json_trees(items@);
    let mut signals: Vec<Field> = Vec::new();
    let mut i: usize = 0;
    assert(trees.take(0) =~= Seq::<JsonTree>::empty());
    assert(fields_view(signals@) =~= Seq::<nat>::empty());
    while i < items.len()
        invariant
            i <= items.len(),
            trees == json_trees(items@),
            json_tree(*value) == JsonTree::List(trees),
            entry_values(trees.take(i as int)) == Ok::<Seq<nat>, ParseError>(fields_view(signals@)),
        decreases items.len() - i,
    {
        let ghost before = fields_view(signals@);
        assert(trees.take(i + 1).drop_last() =~= trees.take(i as int));
        assert(trees.take(i + 1).last() == json_tree(items@[i as int]));
        match read_entry(&items[i]) {
            Ok(f) => {
                signals.push(f);
                assert(fields_view(signals@) =~= before.push(f@));
            },
            Err(e) => {
                proof {
                    assert(entry_values(trees.take(i + 1)) == Err::<Seq<nat>, ParseError>(e));
                    lemma_entry_values_prefix_error(trees, i + 1, e);
                }
                return Err(e);
            },
        }
        i += 1;
    }
    assert(trees.take(i as int) =~= trees);
    Ok(signals)
}

/// An error among the first `n` entries is the error of the whole list.
pub proof fn lemma_entry_values_prefix_error(items: Seq<JsonTree>, n: int, e: ParseError)
    requires
        0 <= n <= items.len(),
        entry_values(items.take(n)) == Err::<Seq<nat>, ParseError>(e),
    ensures
        entry_values(items) == Err::<Seq<nat>, ParseError>(e),
    decreases items.len() - n,
{
    if n < items.len() {
        assert(items.take(n + 1).drop_last() =~= items.take(n));
        lemma_entry_values_prefix_error(items, n + 1, e);
    } else {
        assert(items.take(n) =~= items);
    }
}

/// Reads the calldata out of two JSON values.
pub fn calldata_from_json(proof: &Value, public: &Value) -> (r: Result<ProofCalldata, ParseError>)
    ensures
        calldata_result_view(r) == calldata_of_trees(json_tree(*proof), json_tree(*public)),
{
    let pi_a = match read_pair(json_member(proof, "pi_a")) {
        Ok(p) => p,
        Err(e) => { return Err(e); },
    };
    let rows = json_member(proof, "pi_b");
    let top = match read_pair(json_item(rows, 0)) {
        Ok(p) => p,
        Err(e) => { return Err(e); },
    };
    let bottom = match read_pair(json_item(rows, 1)) {
        Ok(p) => p,
        Err(e) => { return Err(e); },
    };
    let pi_c = match read_pair(json_member(proof, "pi_c")) {
        Ok(p) => p,
        Err(e) => { return Err(e); },
    };
    let signals = match read_signals(public) {
        Ok(s) => s,
        Err(e) => { return Err(e); },
    };
    let calldata = ProofCalldata { pi_a, pi_b: [top, bottom], pi_c, signals };
    assert(calldata@.pi_b =~= seq![pair_view(top), pair_view(bottom)]);
    Ok(calldata)
}

/// Reads the calldata out of the texts of the two artifacts.
pub fn assemble_calldata(proof_text: &str, public_text: &str) -> (r: Result<
    ProofCalldata,
    ParseError,
>)
    ensures
        calldata_result_view(r) == calldata_of_documents(
            json_document(proof_text@),
            json_document(public_text@),
        ),
{
    let proof = match json_from_str(proof_text) {
        Ok(v) => v,
        Err(_) => { return Err(ParseError::InvalidJson); },
    };
    let public = match json_from_str(public_text) {
        Ok(v) => v,
        Err(_) => { return Err(ParseError::InvalidJson); },
    };
    calldata_from_json(&proof, &public)
}

/// Assembles the calldata from what reading the two artifact files gave:
/// a missing or unreadable file is an `Io` error, anything wrong inside a
/// file a `Parse` error.
pub fn assemble(proof_file: Option<&str>, public_file: Option<&str>) -> (r: Result<
    ProofCalldata,
    AssembleError,
>)
    ensures
        assemble_result_view(r) == calldata_of_files(
            match proof_file {
                Some(t) => Some(t@),
                None => None,
            },
            match public_file {
                Some(t) => Some(t@),
                None => None,
            },
        ),
{
    match (proof_file, public_file) {
        (Some(p), Some(q)) => match assemble_calldata(p, q) {
            Ok(c) => Ok(c),
            Err(e) => Err(AssembleError::Parse(e)),
        },
        _ => Err(AssembleError::Io),
    }
}

/// Where the two artifacts of one request lie.
#[derive(Debug, PartialEq, Eq)]
pub struct ArtifactPaths {
    pub proof: String,
    pub public: String,
}

/// The directory as the start of a path: a `/` is put behind it unless it is
/// empty or ends in one.
pub open spec fn directory_prefix(dir: Seq<char>) -> Seq<char> {
    if dir.len() == 0 || dir.last() == '/' {
        dir
    } else {
        dir.push('/')
    }
}

pub open spec fn proof_path(dir: Seq<char>, id: Seq<char>) -> Seq<char> {
    directory_prefix(dir) + "rapidsnark_proof_"@ + id + ".json"@
}

pub open spec fn public_path(dir: Seq<char>, id: Seq<char>) -> Seq<char> {
    directory_prefix(dir) + "rapidsnark_public_"@ + id + ".json"@
}

fn directory_string(dir: &str) -> (r: String)
    ensures
        r@ == directory_prefix(dir@),
{
    let n = dir.unicode_len();
    let mut prefix = String::from_str(dir);
    if n > 0 && dir.get_char(n - 1) != '/' {
        proof {
            reveal_strlit("/");
        }
        prefix.append("/");
        assert(prefix@ =~= dir@.push('/'));
    }
    prefix
}

/// The paths of the two artifacts of the request `id` under `dir`.
pub fn artifact_paths(dir: &str, id: &str) -> (r: ArtifactPaths)
    ensures
        r.proof@ == proof_path(dir@, id@),
        r.public@ == public_path(dir@, id@),
{
    let mut proof = directory_string(dir);
    proof.append("rapidsnark_proof_");
    proof.append(id);
    proof.append(".json");
    let mut public = directory_string(dir);
    public.append("rapidsnark_public_");
    public.append(id);
    public.append(".json");
    ArtifactPaths { proof, public }
}

/// Two fields with the same limbs.
pub open spec fn same_limbs(a: Field, b: Field) -> bool {
    a.limbs@ == b.limbs@
}

/// Two calldata values that agree limb by limb.
pub open spec fn identical_calldata(a: ProofCalldata, b: ProofCalldata) -> bool {
    &&& forall|i: int| 0 <= i < 2 ==> same_limbs(#[trigger] a.pi_a[i], b.pi_a[i])
    &&& forall|i: int, j: int|
        0 <= i < 2 && 0 <= j < 2 ==> same_limbs(#[trigger] a.pi_b[i][j], b.pi_b[i][j])
    &&& forall|i: int| 0 <= i < 2 ==> same_limbs(#[trigger] a.pi_c[i], b.pi_c[i])
    &&& a.signals@.len() == b.signals@.len()
    &&& forall|i: int|
        0 <= i < a.signals@.len() ==> same_limbs(#[trigger] a.signals@[i], b.signals@[i])
}

/// Assembling is a function of what the two files hold: two runs on the
/// same files fail with the same error, or yield calldata that agree limb by
/// limb.
pub proof fn law_assembly_deterministic(
    proof_file: Option<Seq<char>>,
    public_file: Option<Seq<char>>,
    first: Result<ProofCalldata, AssembleError>,
    second: Result<ProofCalldata, AssembleError>,
)
    requires
        assemble_result_view(first) == calldata_of_files(proof_file, public_file),
        assemble_result_view(second) == calldata_of_files(proof_file, public_file),
    ensures
        match (first, second) {
            (Ok(a), Ok(b)) => identical_calldata(a, b),
            (Err(e), Err(f)) => e == f,
            _ => false,
        },
{
    match (first, second) {
        (Ok(a), Ok(b)) => {
            lemma_same_view_identical(a, b);
        },
        _ => {},
    }
}

/// Calldata that denote the same numbers agree limb by limb.
pub proof fn lemma_same_view_identical(a: ProofCalldata, b: ProofCalldata)
    requires
        a@ == b@,
    ensures
        identical_calldata(a, b),
{
    assert forall|i: int| 0 <= i < 2 implies same_limbs(#[trigger] a.pi_a[i], b.pi_a[i]) by {
        assert(a@.pi_a[i] == b@.pi_a[i]);
        lemma_field_view_injective(a.pi_a[i], b.pi_a[i]);
    }
    assert forall|i: int, j: int| 0 <= i < 2 && 0 <= j < 2 implies same_limbs(
        #[trigger] a.pi_b[i][j],
        b.pi_b[i][j],
    ) by {
        assert(a@.pi_b[i][j] == b@.pi_b[i][j]);
        lemma_field_view_injective(a.pi_b[i][j], b.pi_b[i][j]);
    }
    assert forall|i: int| 0 <= i < 2 implies same_limbs(#[trigger] a.pi_c[i], b.pi_c[i]) by {
        assert(a@.pi_c[i] == b@.pi_c[i]);
        lemma_field_view_injective(a.pi_c[i], b.pi_c[i]);
    }
    assert(fields_view(a.signals@).len() == a.signals@.len());
    assert(fields_view(b.signals@).len() == b.signals@.len());
    assert forall|i: int| 0 <= i < a.signals@.len() implies same_limbs(
        #[trigger] a.signals@[i],
        b.signals@[i],
    ) by {
        assert(fields_view(a.signals@)[i] == a.signals@[i]@);
        assert(fields_view(b.signals@)[i] == b.signals@[i]@);
        lemma_field_view_injective(a.signals@[i], b.signals@[i]);
    }
}

} // verus!
