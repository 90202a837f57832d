//! Build ids and the names of log files.
use vstd::prelude::*;

use crate::build::BuildEventType;
use crate::numeral;
use crate::text::decimal_text;

verus! {

/// The id of one build.
#[derive(Clone, Copy, Debug, PartialEq, Eq, Structural)]
pub struct BuildId {
    pub inner: u128,
}

/// `value` carries the marks of a UUID of version 7: its version and its variant field.
pub open spec fn is_version_7(value: u128) -> bool {
    &&& (value >> 76) & 0xf == 7
    &&& (value >> 62) & 0x3 == 2
}

/// Calls `uuid::Uuid::now_v7`, which makes an id out of the clock and random bits. The contract
/// claims the version and variant fields, which are all that every outcome shares. The call
/// panics where the clock stands before 1970 or the machine has no source of random bits.
#[verifier::external_body]
fn uuid_now_v7() -> (r: u128)
    ensures
        is_version_7(r),
{
    uuid::Uuid::now_v7().as_u128()
}

/// A call of the source of ids, and nothing else, gave `value`.
pub closed spec fn is_drawn(value: u128) -> bool {
    call_ensures(uuid_now_v7, (), value)
}

impl BuildId {
    /// The text form of the id, as a spec.
    pub open spec fn spec_text(self) -> Seq<char> {
        numeral::numeral(self.inner as nat)
    }

    /// A fresh id.
    pub fn new() -> (r: Self)
        ensures
            is_version_7(r.inner),
            is_drawn(r.inner),
    {
        BuildId { inner: uuid_now_v7() }
    }

    /// The id that `s` is the text form of.
    pub fn parse(s: &str) -> (r: Self)
        requires
            numeral::decoded(s@) is Some,
        ensures
            numeral::decoded(s@) == Some(r.inner),
    {
        BuildId { inner: numeral::decode(s).unwrap() }
    }

    /// The id that `s` is the text form of; `None` where `s` is the text form of no id.
    pub fn try_parse(s: &str) -> (r: Option<Self>)
        ensures
            match r {
                Some(id) => numeral::decoded(s@) == Some(id.inner),
                None => numeral::decoded(s@) is None,
            },
    {
        match numeral::decode(s) {
            Some(inner) => Some(BuildId { inner }),
            None => None,
        }
    }

    /// The text form of the id.
    pub fn to_string(&self) -> (r: String)
        ensures
            r@ == self.spec_text(),
    {
        numeral::encode(self.inner)
    }
}

/// A fresh id is what the source of ids gave.
proof fn law_fresh_id_is_drawn(id: BuildId)
    requires
        call_ensures(BuildId::new, (), id),
    ensures
        call_ensures(uuid_now_v7, (), id.inner),
{
}

/// The name of the file that holds the events of one type of one stage.
pub open spec fn log_name(stage: nat, ty: BuildEventType) -> Seq<char> {
    match ty {
        BuildEventType::Message => ".watcher_log_"@ + crate::text::decimal(stage),
        BuildEventType::Error => ".watcher_err_"@ + crate::text::decimal(stage),
    }
}

/// The name of the file that holds the events of type `ty` of the stage `stage`.
pub fn log_file_name(stage: usize, ty: BuildEventType) -> (r: String)
    ensures
        r@ == log_name(stage as nat, ty),
{
    let mut out = match ty {
        BuildEventType::Message => ".watcher_log_".to_owned(),
        BuildEventType::Error => ".watcher_err_".to_owned(),
    };
    out.append(decimal_text(stage).as_str());
    out
}

/// Parsing gives back the id whose text form was written, and that form has no leading zeros.
pub proof fn law_parse_inverts_to_string(id: BuildId)
    ensures
        numeral::decoded(id.spec_text()) == Some(id.inner),
        numeral::is_canonical(id.spec_text()),
{
    numeral::law_decode_inverts_encode(id.inner);
    numeral::law_numerals_have_no_leading_zeros(id.inner as nat);
}

/// Different ids have different text forms.
pub proof fn law_id_texts_are_distinct(a: BuildId, b: BuildId)
    requires
        a.spec_text() == b.spec_text(),
    ensures
        a == b,
{
    law_parse_inverts_to_string(a);
    law_parse_inverts_to_string(b);
}

/// The text form of an id is one part of a path.
pub proof fn law_id_text_is_a_file_name(id: BuildId)
    ensures
        crate::paths::is_file_name(id.spec_text()),
{
    numeral::lemma_numeral_value(id.inner as nat);
    let text = id.spec_text();
    assert forall|i: int| 0 <= i < text.len() implies #[trigger] text[i] != '/' by {
        assert(numeral::digit_value(text[i]) is Some);
    }
}

/// The name of a log file is one part of a path.
pub proof fn law_log_name_is_a_file_name(stage: nat, ty: BuildEventType)
    ensures
        crate::paths::is_file_name(log_name(stage, ty)),
{
    reveal_strlit(".watcher_log_");
    reveal_strlit(".watcher_err_");
    crate::text::lemma_decimal_not_empty(stage);
    let number = crate::text::decimal(stage);
    let name = log_name(stage, ty);
    assert forall|i: int| 0 <= i < name.len() implies #[trigger] name[i] != '/' by {
        if i >= 13 {
            assert(name[i] == number[i - 13]);
        }
    }
}

/// Each type of event of each stage has a log file of its own.
pub proof fn law_log_names_are_distinct(
    stage1: nat,
    ty1: BuildEventType,
    stage2: nat,
    ty2: BuildEventType,
)
    requires
        log_name(stage1, ty1) == log_name(stage2, ty2),
    ensures
        stage1 == stage2,
        ty1 == ty2,
{
    reveal_strlit(".watcher_log_");
    reveal_strlit(".watcher_err_");
    let name1 = log_name(stage1, ty1);
    let name2 = log_name(stage2, ty2);
    assert(name1[9] == name2[9]);
    assert(name1.skip(13) =~= crate::text::decimal(stage1));
    assert(name2.skip(13) =~= crate::text::decimal(stage2));
    crate::text::lemma_decimal_injective(stage1, stage2);
}

/// The name of a log file tells its type by how it starts, and its stage by the number behind.
pub proof fn law_log_name_tells_type_and_stage(stage: nat, ty: BuildEventType)
    ensures
        ({
            let name = log_name(stage, ty);
            let number = name.skip(13);
            &&& name.take(13) == match ty {
                BuildEventType::Message => ".watcher_log_"@,
                BuildEventType::Error => ".watcher_err_"@,
            }
            &&& crate::text::is_decimal(number)
            &&& crate::text::decimal_value(number) == stage
        }),
{
    reveal_strlit(".watcher_log_");
    reveal_strlit(".watcher_err_");
    let name = log_name(stage, ty);
    assert(name.skip(13) =~= crate::text::decimal(stage));
    assert(name.take(13) =~= match ty {
        BuildEventType::Message => ".watcher_log_"@,
        BuildEventType::Error => ".watcher_err_"@,
    });
    crate::text::law_decimal_is_read_back(stage);
}

} // verus!
