//! What one run of the memory pipeline reports, and the line that it prints.

use vstd::prelude::*;

verus! {

/// What one run of the memory pipeline did: how many sessions its first phase
/// claimed and extracted, and whether its second phase ran and changed
/// anything.
#[derive(Debug, Clone, Copy, PartialEq, Eq)]
pub struct PipelineReport {
    pub phase1_claimed: usize,
    pub phase1_succeeded: usize,
    pub phase2_ran: bool,
    pub phase2_changed: bool,
}

impl Default for PipelineReport {
    /// The report of a run that did nothing.
    fn default() -> (report: PipelineReport)
        ensures
            report.phase1_claimed == 0,
            report.phase1_succeeded == 0,
            !report.phase2_ran,
            !report.phase2_changed,
    {
        PipelineReport {
            phase1_claimed: 0,
            phase1_succeeded: 0,
            phase2_ran: false,
            phase2_changed: false,
        }
    }
}

/// `serde_json::Map`, of which only the members are known, by [`json_members`].
#[verifier::external_type_specification]
#[verifier::external_body]
#[verifier::reject_recursive_types(K)]
#[verifier::reject_recursive_types(V)]
pub struct ExJsonMap<K, V>(serde_json::Map<K, V>);

/// The members of a JSON object in their order, each by its key and by the
/// compact JSON text of its value.
pub uninterp spec fn json_members(
    object: serde_json::Map<String, serde_json::Value>,
) -> Seq<(Seq<char>, Seq<char>)>;

/// The decimal digit `d`.
pub open spec fn decimal_digit(d: nat) -> char {
    (0x30 + d) as char
}

/// `n` in decimal notation.
pub open spec fn decimal(n: nat) -> Seq<char>
    decreases n,
{
    if n < 10 {
        seq![decimal_digit(n)]
    } else {
        decimal(n / 10).push(decimal_digit(n % 10))
    }
}

/// A truth value in JSON.
pub open spec fn json_bool(flag: bool) -> Seq<char> {
    if flag {
        "true"@
    } else {
        "false"@
    }
}

/// The members once `key` has this value: in the place that the key had, or at
/// the end.
pub open spec fn with_member(
    members: Seq<(Seq<char>, Seq<char>)>,
    key: Seq<char>,
    value: Seq<char>,
) -> Seq<(Seq<char>, Seq<char>)>
    decreases members.len(),
{
    if members.len() == 0 {
        seq![(key, value)]
    } else if members[0].0 == key {
        members.update(0, (key, value))
    } else {
        seq![members[0]] + with_member(members.drop_first(), key, value)
    }
}

/// A key that stands in JSON as it is, without escapes.
pub open spec fn is_plain_key(key: Seq<char>) -> bool {
    forall|i: int|
        0 <= i < key.len() ==> (#[trigger] key[i]) as u32 >= 0x20 && key[i] != '"' && key[i]
            != '\\'
}

/// One member in compact JSON.
pub open spec fn member_text(member: (Seq<char>, Seq<char>)) -> Seq<char> {
    seq!['"'] + member.0 + seq!['"', ':'] + member.1
}

/// Members in compact JSON, with commas between them.
pub open spec fn members_text(members: Seq<(Seq<char>, Seq<char>)>) -> Seq<char>
    decreases members.len(),
{
    if members.len() == 0 {
        Seq::empty()
    } else if members.len() == 1 {
        member_text(members[0])
    } else {
        members_text(members.drop_last()) + seq![','] + member_text(members.last())
    }
}

/// An object in compact JSON.
pub open spec fn object_text(members: Seq<(Seq<char>, Seq<char>)>) -> Seq<char> {
    seq!['{'] + members_text(members) + seq!['}']
}

/// Calls `serde_json::Map::new`: an object without members.
#[verifier::external_body]
fn json_object() -> (object: serde_json::Map<String, serde_json::Value>)
    ensures
        json_members(object) == Seq::<(Seq<char>, Seq<char>)>::empty(),
{
    serde_json::Map::new()
}

/// Calls `serde_json::Map::insert` with a number: the key gets the number as
/// its value, in the place that it had or at the end, where the `preserve_order`
/// feature keeps members in the order of their insertion.
#[verifier::external_body]
fn insert_number(
    object: &mut serde_json::Map<String, serde_json::Value>,
    key: &'static str,
    number: usize,
)
    ensures
        json_members(*final(object)) == with_member(
            json_members(*old(object)),
            key@,
            decimal(number as nat),
        ),
{
    object.insert(key.to_string(), serde_json::Value::from(number));
}

/// Calls `serde_json::Map::insert` with a truth value, as above.
#[verifier::external_body]
fn insert_bool(
    object: &mut serde_json::Map<String, serde_json::Value>,
    key: &'static str,
    flag: bool,
)
    ensures
        json_members(*final(object)) == with_member(
            json_members(*old(object)),
            key@,
            json_bool(flag),
        ),
{
    object.insert(key.to_string(), serde_json::Value::from(flag));
}

/// Calls `to_string` of `serde_json::Value::Object`: the object in compact JSON,
/// its members in their order.
#[verifier::external_body]
fn json_object_text(object: serde_json::Map<String, serde_json::Value>) -> (text: String)
    requires
        forall|i: int|
            0 <= i < json_members(object).len() ==> is_plain_key(
                (#[trigger] json_members(object)[i]).0,
            ),
    ensures
        text@ == object_text(json_members(object)),
{
    serde_json::Value::Object(object).to_string()
}

/// The members of a report's JSON object.
pub open spec fn report_members(report: PipelineReport) -> Seq<(Seq<char>, Seq<char>)> {
    seq![
        ("phase1_claimed"@, decimal(report.phase1_claimed as nat)),
        ("phase1_succeeded"@, decimal(report.phase1_succeeded as nat)),
        ("phase2_ran"@, json_bool(report.phase2_ran)),
        ("phase2_changed"@, json_bool(report.phase2_changed)),
    ]
}

/// A report as a JSON object.
pub fn pipeline_report_json(report: &PipelineReport) -> (object: serde_json::Map<
    String,
    serde_json::Value,
>)
    ensures
        json_members(object) == report_members(*report),
{
    let mut object = json_object();
    insert_number(&mut object, "phase1_claimed", report.phase1_claimed);
    insert_number(&mut object, "phase1_succeeded", report.phase1_succeeded);
    insert_bool(&mut object, "phase2_ran", report.phase2_ran);
    insert_bool(&mut object, "phase2_changed", report.phase2_changed);
    proof {
        report_keys_differ();
        reveal_with_fuel(with_member, 4);
        assert(json_members(object) =~= report_members(*report));
    }
    object
}

/// The keys of a report are four different ones, and plain.
proof fn report_keys_differ()
    ensures
        "phase1_claimed"@ != "phase1_succeeded"@,
        "phase1_claimed"@ != "phase2_ran"@,
        "phase1_claimed"@ != "phase2_changed"@,
        "phase1_succeeded"@ != "phase2_ran"@,
        "phase1_succeeded"@ != "phase2_changed"@,
        "phase2_ran"@ != "phase2_changed"@,
        is_plain_key("phase1_claimed"@),
        is_plain_key("phase1_succeeded"@),
        is_plain_key("phase2_ran"@),
        is_plain_key("phase2_changed"@),
{
    reveal_strlit("phase1_claimed");
    reveal_strlit("phase1_succeeded");
    reveal_strlit("phase2_ran");
    reveal_strlit("phase2_changed");
    assert("phase1_claimed"@[7] == 'c' && "phase1_succeeded"@[7] == 's');
    assert("phase1_claimed"@.len() == 14 && "phase1_succeeded"@.len() == 16);
    assert("phase2_ran"@.len() == 10 && "phase2_changed"@.len() == 14);
    assert("phase1_claimed"@[5] == '1' && "phase2_changed"@[5] == '2');
}

/// The one line that a run of the memory pipeline prints.
pub fn pipeline_report_line(report: &PipelineReport) -> (line: String)
    ensures
        line@ == object_text(report_members(*report)),
        line@ == "{\"phase1_claimed\":"@ + decimal(report.phase1_claimed as nat)
            + ",\"phase1_succeeded\":"@ + decimal(report.phase1_succeeded as nat)
            + ",\"phase2_ran\":"@ + json_bool(report.phase2_ran) + ",\"phase2_changed\":"@
            + json_bool(report.phase2_changed) + "}"@,
{
    let object = pipeline_report_json(report);
    proof {
        report_keys_differ();
        report_text_is_documented(*report);
    }
    json_object_text(object)
}

/// The pieces of the documented line are the quoted keys.
proof fn documented_pieces()
    ensures
        "{\"phase1_claimed\":"@ == seq!['{'] + (seq!['"'] + "phase1_claimed"@ + seq!['"', ':']),
        ",\"phase1_succeeded\":"@ == seq![','] + (seq!['"'] + "phase1_succeeded"@ + seq![
            '"',
            ':',
        ]),
        ",\"phase2_ran\":"@ == seq![','] + (seq!['"'] + "phase2_ran"@ + seq!['"', ':']),
        ",\"phase2_changed\":"@ == seq![','] + (seq!['"'] + "phase2_changed"@ + seq!['"', ':']),
        "}"@ == seq!['}'],
{
    reveal_strlit("phase1_claimed");
    reveal_strlit("phase1_succeeded");
    reveal_strlit("phase2_ran");
    reveal_strlit("phase2_changed");
    reveal_strlit("{\"phase1_claimed\":");
    reveal_strlit(",\"phase1_succeeded\":");
    reveal_strlit(",\"phase2_ran\":");
    reveal_strlit(",\"phase2_changed\":");
    reveal_strlit("}");
}

/// One more member in front of which `so_far` stands.
proof fn next_member(
    so_far: Seq<char>,
    mark: Seq<char>,
    member: (Seq<char>, Seq<char>),
    piece: Seq<char>,
)
    requires
        piece == mark + (seq!['"'] + member.0 + seq!['"', ':']),
    ensures
        so_far + mark + member_text(member) == so_far + piece + member.1,
{
    let quoted = seq!['"'] + member.0 + seq!['"', ':'];
    assert(member_text(member) == quoted + member.1);
    assert(so_far + mark + (quoted + member.1) =~= so_far + (mark + quoted) + member.1);
}

/// A report's compact JSON is the documented line.
pub proof fn report_text_is_documented(report: PipelineReport)
    ensures
        object_text(report_members(report)) == "{\"phase1_claimed\":"@ + decimal(
            report.phase1_claimed as nat,
        ) + ",\"phase1_succeeded\":"@ + decimal(report.phase1_succeeded as nat)
            + ",\"phase2_ran\":"@ + json_bool(report.phase2_ran) + ",\"phase2_changed\":"@
            + json_bool(report.phase2_changed) + "}"@,
{
    let members = report_members(report);
    let three = members.drop_last();
    let two = three.drop_last();
    let one = two.drop_last();
    let open = seq!['{'];
    let comma = seq![','];
    documented_pieces();
    assert(members_text(one) == member_text(members[0]));
    assert(members_text(two) == members_text(one) + comma + member_text(members[1]));
    assert(members_text(three) == members_text(two) + comma + member_text(members[2]));
    assert(members_text(members) == members_text(three) + comma + member_text(members[3]));
    let empty = Seq::<char>::empty();
    let text1 = "{\"phase1_claimed\":"@ + members[0].1;
    assert(open + members_text(one) == text1) by {
        next_member(empty, open, members[0], "{\"phase1_claimed\":"@);
        assert(empty + open =~= open);
        assert(empty + "{\"phase1_claimed\":"@ =~= "{\"phase1_claimed\":"@);
    }
    let text2 = text1 + ",\"phase1_succeeded\":"@ + members[1].1;
    assert(open + members_text(two) == text2) by {
        next_member(text1, comma, members[1], ",\"phase1_succeeded\":"@);
        assert(open + members_text(two) =~= open + members_text(one) + comma + member_text(
            members[1],
        ));
    }
    let text3 = text2 + ",\"phase2_ran\":"@ + members[2].1;
    assert(open + members_text(three) == text3) by {
        next_member(text2, comma, members[2], ",\"phase2_ran\":"@);
        assert(open + members_text(three) =~= open + members_text(two) + comma + member_text(
            members[2],
        ));
    }
    assert(open + members_text(members) == text3 + ",\"phase2_changed\":"@ + members[3].1) by {
        next_member(text3, comma, members[3], ",\"phase2_changed\":"@);
        assert(open + members_text(members) =~= open + members_text(three) + comma + member_text(
            members[3],
        ));
    }
}

/// A report's object has four members, in this order, each with the value of its
/// field.
pub proof fn report_has_four_members(report: PipelineReport)
    ensures
        report_members(report).len() == 4,
        report_members(report)[0] == ("phase1_claimed"@, decimal(report.phase1_claimed as nat)),
        report_members(report)[1] == (
            "phase1_succeeded"@,
            decimal(report.phase1_succeeded as nat),
        ),
        report_members(report)[2] == ("phase2_ran"@, if report.phase2_ran {
            "true"@
        } else {
            "false"@
        }),
        report_members(report)[3] == ("phase2_changed"@, if report.phase2_changed {
            "true"@
        } else {
            "false"@
        }),
{
}

/// Different numbers are written differently.
pub proof fn decimal_tells_numbers_apart(m: nat, n: nat)
    requires
        decimal(m) == decimal(n),
    ensures
        m == n,
    decreases m,
{
    assert(decimal(m).last() == decimal_digit(m % 10));
    assert(decimal(n).last() == decimal_digit(n % 10));
    assert(m % 10 == n % 10);
    if m >= 10 {
        assert(decimal(m).drop_last() =~= decimal(m / 10));
        decimal_is_not_empty(m / 10);
    }
    if n >= 10 {
        assert(decimal(n).drop_last() =~= decimal(n / 10));
        decimal_is_not_empty(n / 10);
    }
    if m >= 10 && n >= 10 {
        decimal_tells_numbers_apart(m / 10, n / 10);
    }
}

/// Every number has a digit.
proof fn decimal_is_not_empty(n: nat)
    ensures
        decimal(n).len() > 0,
{
}

/// The object tells the whole report: two reports with the same members are the
/// same.
pub proof fn members_tell_the_report(left: PipelineReport, right: PipelineReport)
    requires
        report_members(left) == report_members(right),
    ensures
        left == right,
{
    report_has_four_members(left);
    report_has_four_members(right);
    reveal_strlit("true");
    reveal_strlit("false");
    assert("true"@.len() != "false"@.len());
    decimal_tells_numbers_apart(left.phase1_claimed as nat, right.phase1_claimed as nat);
    decimal_tells_numbers_apart(left.phase1_succeeded as nat, right.phase1_succeeded as nat);
}

} // verus!
