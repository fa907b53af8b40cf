//! The witness-input document handed to the prover for one subject.
use vstd::prelude::*;
use crate::digits::{all_digits, append_decimal, decimal_digits_of, leading_digits};

verus! {

/// A non-negative decimal: digits, then optionally a point and more digits.
pub open spec fn well_formed_decimal(s: Seq<char>) -> bool {
    let k = leading_digits(s) as int;
    k >= 1 && (k == s.len() || (s[k] == '.' && k + 1 < s.len() && all_digits(
        s.subrange(k + 1, s.len() as int),
    )))
}

/// A feature written as a decimal number: an optional minus sign, digits, and
/// optionally a point and more digits.
pub open spec fn is_feature_literal(s: Seq<char>) -> bool {
    if s.len() > 0 && s[0] == '-' {
        well_formed_decimal(s.subrange(1, s.len() as int))
    } else {
        well_formed_decimal(s)
    }
}

/// The features separated by commas.
pub open spec fn comma_separated(fs: Seq<Seq<char>>) -> Seq<char>
    decreases fs.len(),
{
    if fs.len() == 0 {
        Seq::empty()
    } else if fs.len() == 1 {
        fs[0]
    } else {
        comma_separated(fs.drop_last()) + seq![','] + fs.last()
    }
}

/// The witness-input document: the features as the single row of the input,
/// the input's shape, and a placeholder output.
pub open spec fn witness_input_text(fs: Seq<Seq<char>>) -> Seq<char> {
    let shape = decimal_digits_of(fs.len());
    "{\"input_data\":[["@ + comma_separated(fs) + "]],\"input_shapes\":[["@ + shape
        + "]],\"output_data\":[[0.0]]}"@
}

pub open spec fn feature_views(features: Seq<String>) -> Seq<Seq<char>> {
    features.map_values(|f: String| f@)
}

/// Why a feature vector cannot become a witness input.
#[derive(Clone, Copy, Debug, PartialEq, Eq, Structural)]
pub enum InputError {
    EmptyFeatures,
    /// The feature at this position is not a finite decimal number.
    InvalidFeature(usize),
}

/// Whether a feature is written as a finite decimal number.
pub fn is_valid_feature(s: &str) -> (r: bool)
    ensures
        r == is_feature_literal(s@),
{
    let n = s.unicode_len();
    if n > 0 && s.get_char(0) == '-' {
        let rest = s.substring_char(1, n);
        is_unsigned_decimal(rest)
    } else {
        is_unsigned_decimal(s)
    }
}

/// Whether `s` is digits, optionally followed by a point and more digits.
fn is_unsigned_decimal(s: &str) -> (r: bool)
    ensures
        r == well_formed_decimal(s@),
{
    let n = s.unicode_len();
    let mut k: usize = 0;
    assert(s@.subrange(0, n as int) =~= s@);
    while k < n && s.get_char(k) >= '0' && s.get_char(k) <= '9'
        invariant
            n == s@.len(),
            k <= n,
            leading_digits(s@) == k + leading_digits(s@.subrange(k as int, n as int)),
        decreases n - k,
    {
        proof {
            let r = s@.subrange(k as int, n as int);
            assert(r.subrange(1, r.len() as int) =~= s@.subrange(k + 1, n as int));
        }
        k = k + 1;
    }
    proof {
        assert(s@.subrange(k as int, n as int).len() == 0 || s@.subrange(k as int, n as int)[0]
            == s@[k as int]);
    }
    if k == 0 {
        return false;
    }
    if k == n {
        return true;
    }
    if s.get_char(k) != '.' || k + 1 >= n {
        return false;
    }
    let mut j: usize = k + 1;
    while j < n
        invariant
            n == s@.len(),
            k < j <= n,
            leading_digits(s@) == k,
            s@[k as int] == '.',
            forall|t: int| k + 1 <= t < j ==> '0' <= #[trigger] s@[t] && s@[t] <= '9',
        decreases n - j,
    {
        let c = s.get_char(j);
        if !(c >= '0' && c <= '9') {
            assert(s@.subrange(k + 1, n as int)[j - k - 1] == c);
            return false;
        }
        j = j + 1;
    }
    assert(all_digits(s@.subrange(k + 1, n as int))) by {
        assert(forall|t: int|
            0 <= t < n - k - 1 ==> #[trigger] s@.subrange(k + 1, n as int)[t] == s@[k + 1 + t]);
    }
    true
}

/// Appends the features, separated by commas.
pub fn append_comma_separated(text: &mut String, features: &Vec<String>)
    ensures
        final(text)@ == old(text)@ + comma_separated(feature_views(features@)),
{
    let ghost fs = feature_views(features@);
    let ghost head = text@;
    let n = features.len();
    let mut i: usize = 0;
    assert(fs.subrange(0, 0) =~= Seq::<Seq<char>>::empty());
    while i < n
        invariant
            n == features@.len(),
            fs == feature_views(features@),
            fs.len() == n,
            i <= n,
            text@ == head + comma_separated(fs.subrange(0, i as int)),
        decreases n - i,
    {
        if i > 0 {
            text.append(",");
            proof {
                reveal_strlit(",");
            }
        }
        text.append(features[i].as_str());
        proof {
            let sub = fs.subrange(0, i + 1);
            assert(sub.drop_last() =~= fs.subrange(0, i as int));
            assert(sub.last() == features@[i as int]@);
            assert(text@ =~= head + comma_separated(sub));
        }
        i = i + 1;
    }
    assert(fs.subrange(0, n as int) =~= fs);
}

/// Builds the witness-input document of a feature vector, each feature given
/// as its decimal text. The document is a function of the features alone.
pub fn build_input(features: &Vec<String>) -> (r: Result<String, InputError>)
    ensures
        match r {
            Ok(text) => features@.len() > 0 && (forall|i: int|
                0 <= i < features@.len() ==> is_feature_literal(#[trigger] features@[i]@))
                && text@ == witness_input_text(feature_views(features@)),
            Err(InputError::EmptyFeatures) => features@.len() == 0,
            Err(InputError::InvalidFeature(i)) => i < features@.len() && !is_feature_literal(
                features@[i as int]@,
            ) && forall|j: int| 0 <= j < i ==> is_feature_literal(#[trigger] features@[j]@),
        },
{
    let n = features.len();
    if n == 0 {
        return Err(InputError::EmptyFeatures);
    }
    let mut i: usize = 0;
    while i < n
        invariant
            n == features@.len(),
            i <= n,
            forall|j: int| 0 <= j < i ==> is_feature_literal(#[trigger] features@[j]@),
        decreases n - i,
    {
        if !is_valid_feature(features[i].as_str()) {
            return Err(InputError::InvalidFeature(i));
        }
        i = i + 1;
    }
    let mut text = "{\"input_data\":[[".to_owned();
    append_comma_separated(&mut text, features);
    text.append("]],\"input_shapes\":[[");
    append_decimal(&mut text, n as u64);
    text.append("]],\"output_data\":[[0.0]]}");
    Ok(text)
}

/// Building the input twice from the same features gives the same document.
pub proof fn lemma_build_input_deterministic(a: Seq<String>, b: Seq<String>)
    requires
        feature_views(a) == feature_views(b),
    ensures
        witness_input_text(feature_views(a)) == witness_input_text(feature_views(b)),
{
}

} // verus!
