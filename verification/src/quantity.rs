//! Quantities as the cluster reports them (`1024n`, `256Mi`, `4`): a run
//! of digits followed by an optional unit prefix. The unit the cluster
//! leaves out is put back before the quantity is read.
use vstd::prelude::*;
use vstd::string::*;

verus! {

/// The unit the cluster leaves out of a quantity.
#[derive(Clone, Debug, PartialEq, Eq)]
pub enum MissingUnitType {
    /// Only the rightmost part is missing, e.g. `B` for bytes: it is
    /// appended to the prefix the cluster gave.
    Suffix(String),
    /// The whole unit is replaced, e.g. `1024n` read as `1024 ppb`.
    Complete(String),
}

/// Why a quantity could not be read.
#[derive(Clone, Debug, PartialEq, Eq)]
pub enum QuantityError {
    /// The text is not digits followed by word characters.
    Unparsable(String),
    /// The quantity, with its unit restored, is not an amount of a known
    /// unit, or the amount does not fit in 64 bits.
    Unreadable(String),
}

/// What a quantity measures, and so the unit its amount is read in.
#[derive(Clone, Copy, Debug, PartialEq, Eq)]
pub enum QuantityKind {
    /// Memory, read in bytes.
    Memory,
    /// CPU, read in nanocpu (parts per billion of a core).
    Cpu,
}

/// The amount, in whole bytes, of the information quantity that
/// `expression` reads as, if it reads as one and the amount fits.
pub uninterp spec fn memory_amount(expression: Seq<char>) -> Option<u64>;

/// The amount, in whole parts per billion, of the ratio that `expression`
/// reads as, if it reads as one and the amount fits.
pub uninterp spec fn cpu_amount(expression: Seq<char>) -> Option<u64>;

/// uom's `FromStr` for an information quantity (exact rational storage),
/// read in bytes and rounded to the nearest whole byte; `None` when the
/// text is not a value, a space and a known unit, or the amount does not
/// fit in a `u64`.
#[verifier::external_body]
fn parse_memory(expression: &str) -> (r: Option<u64>)
    ensures
        r == memory_amount(expression@),
{
    expression.parse::<uom::si::bigrational::Information>().ok().and_then(|q| {
        uom::num::ToPrimitive::to_u64(&q.get::<uom::si::information::byte>().round().to_integer())
    })
}

/// uom's `FromStr` for a ratio (exact rational storage), read in parts per
/// billion and rounded to the nearest whole part; `None` when the text is
/// not a value, a space and a known unit, or the amount does not fit in a
/// `u64`.
#[verifier::external_body]
fn parse_cpu(expression: &str) -> (r: Option<u64>)
    ensures
        r == cpu_amount(expression@),
{
    expression.parse::<uom::si::bigrational::Ratio>().ok().and_then(|q| {
        uom::num::ToPrimitive::to_u64(&q.get::<uom::si::ratio::part_per_billion>().round().to_integer())
    })
}

/// The amount a quantity expression reads as, in the unit of its kind.
pub open spec fn quantity_amount(expression: Seq<char>, kind: QuantityKind) -> Option<u64> {
    match kind {
        QuantityKind::Memory => memory_amount(expression),
        QuantityKind::Cpu => cpu_amount(expression),
    }
}

/// Whether `c` is in the regex class `\d` with Unicode on: a decimal
/// digit of any script (general category Nd).
pub uninterp spec fn unicode_digit(c: char) -> bool;

/// Whether `c` is in the regex class `\w` with Unicode on: an alphabetic
/// character, a mark, a decimal digit, a connector punctuation or a join control.
pub uninterp spec fn unicode_word(c: char) -> bool;

/// `regex::Regex::is_match` of `\A\d\z` on the character: whether it is a
/// Unicode decimal digit.
#[verifier::external_body]
fn char_is_digit(c: char) -> (r: bool)
    ensures
        r == unicode_digit(c),
{
    let mut buf = [0u8; 4];
    lazy_regex::Regex::new(r"\A\d\z").map_or(false, |re| re.is_match(c.encode_utf8(&mut buf)))
}

/// `regex::Regex::is_match` of `\A\w\z` on the character: whether it is a
/// Unicode word character.
#[verifier::external_body]
fn char_is_word(c: char) -> (r: bool)
    ensures
        r == unicode_word(c),
{
    let mut buf = [0u8; 4];
    lazy_regex::Regex::new(r"\A\w\z").map_or(false, |re| re.is_match(c.encode_utf8(&mut buf)))
}

/// A digit, as the cluster's quantities are read (`\d`).
pub open spec fn is_digit(c: char) -> bool {
    unicode_digit(c)
}

/// A word character, as the cluster's quantities are read (`\w`).
pub open spec fn is_word(c: char) -> bool {
    unicode_word(c)
}

/// The length of the run of digits at the start of `s`.
pub open spec fn digit_run(s: Seq<char>) -> nat
    decreases s.len(),
{
    if s.len() > 0 && is_digit(s[0]) {
        1 + digit_run(s.drop_first())
    } else {
        0
    }
}

/// How `s` reads as digits then word characters: the digits and the rest,
/// or `None` when it does not.
pub open spec fn split_spec(s: Seq<char>) -> Option<(Seq<char>, Seq<char>)> {
    let k = digit_run(s) as int;
    if k >= 1 && forall|i: int| k <= i < s.len() ==> is_word(#[trigger] s[i]) {
        Some((s.subrange(0, k), s.subrange(k, s.len() as int)))
    } else {
        None
    }
}

/// The text of the quantity with its unit restored: the digits, a space,
/// then the unit.
pub open spec fn expression_spec(measure: Seq<char>, prefix: Seq<char>, missing_unit: MissingUnitType) -> Seq<char> {
    measure + seq![' '] + match missing_unit {
        MissingUnitType::Suffix(suffix) => prefix + suffix@,
        MissingUnitType::Complete(complete) => complete@,
    }
}

proof fn lemma_digit_run(s: Seq<char>, k: int)
    requires
        0 <= k <= s.len(),
        forall|i: int| 0 <= i < k ==> is_digit(#[trigger] s[i]),
        k == s.len() || !is_digit(s[k]),
    ensures
        digit_run(s) == k,
    decreases k,
{
    if k > 0 {
        lemma_digit_run(s.drop_first(), k - 1);
    } else if s.len() > 0 {
        assert(!is_digit(s[0]));
    }
}

/// Split a quantity into its digits and what follows them, which must be
/// word characters; `None` when the quantity does not read that way.
pub fn split_quantity(quantity: &str) -> (r: Option<(String, String)>)
    ensures
        r is Some <==> split_spec(quantity@) is Some,
        r matches Some((m, p)) ==> split_spec(quantity@) == Some((m@, p@)),
{
    let n = quantity.unicode_len();
    let mut k: usize = 0;
    while k < n && char_is_digit(quantity.get_char(k))
        invariant
            n == quantity@.len(),
            k <= n,
            forall|i: int| 0 <= i < k ==> is_digit(#[trigger] quantity@[i]),
        decreases n - k,
    {
        k = k + 1;
    }
    proof { lemma_digit_run(quantity@, k as int); }
    if k == 0 {
        return None;
    }
    let mut j: usize = k;
    while j < n
        invariant
            n == quantity@.len(),
            k <= j <= n,
            digit_run(quantity@) == k,
            forall|i: int| k <= i < j ==> is_word(#[trigger] quantity@[i]),
        decreases n - j,
    {
        if !char_is_word(quantity.get_char(j)) {
            assert(!is_word(quantity@[j as int]));
            return None;
        }
        j = j + 1;
    }
    let measure = String::from_str(quantity.substring_char(0, k));
    let prefix = String::from_str(quantity.substring_char(k, n));
    assert(split_spec(quantity@) == Some((measure@, prefix@)));
    Some((measure, prefix))
}

/// The quantity with its missing unit restored, ready to be read: e.g.
/// `1024n` with the complete unit `ppb` gives `1024 ppb`, and `256Mi` with
/// the suffix `B` gives `256 MiB`.
pub fn quantity_expression(quantity: &str, missing_unit: &MissingUnitType) -> (r: Result<String, QuantityError>)
    ensures
        split_spec(quantity@) is None ==> (r matches Err(QuantityError::Unparsable(q)) && q@ == quantity@),
        split_spec(quantity@) matches Some((m, p)) ==> (r matches Ok(e) && e@ == expression_spec(m, p, *missing_unit)),
{
    let (measure, prefix) = match split_quantity(quantity) {
        Some(parts) => parts,
        None => return Err(QuantityError::Unparsable(String::from_str(quantity))),
    };
    let unit = match missing_unit {
        MissingUnitType::Suffix(suffix) => prefix.concat(suffix.as_str()),
        MissingUnitType::Complete(complete) => complete.clone(),
    };
    let text = measure.concat(" ").concat(unit.as_str());
    proof {
        reveal_strlit(" ");
    }
    Ok(text)
}

/// Read a quantity as the cluster reports it: restore its missing unit,
/// then read the amount in bytes (memory) or nanocpu (CPU).
pub fn parse_quantity(quantity: &str, missing_unit: &MissingUnitType, kind: QuantityKind) -> (r: Result<u64, QuantityError>)
    ensures
        split_spec(quantity@) is None ==> (r matches Err(QuantityError::Unparsable(q)) && q@ == quantity@),
        split_spec(quantity@) matches Some((m, p)) ==> {
            let amount = quantity_amount(expression_spec(m, p, *missing_unit), kind);
            &&& amount is None ==> (r matches Err(QuantityError::Unreadable(q)) && q@ == quantity@)
            &&& amount matches Some(v) ==> r == Ok::<u64, QuantityError>(v)
        },
{
    let expression = match quantity_expression(quantity, missing_unit) {
        Ok(e) => e,
        Err(e) => return Err(e),
    };
    let amount = match kind {
        QuantityKind::Memory => parse_memory(expression.as_str()),
        QuantityKind::Cpu => parse_cpu(expression.as_str()),
    };
    match amount {
        Some(v) => Ok(v),
        None => Err(QuantityError::Unreadable(String::from_str(quantity))),
    }
}

} // verus!
