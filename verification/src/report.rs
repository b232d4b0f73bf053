//! What the server reports of members, versions and subscriptions.

use crate::ids::{uuid_text, ActorId, CrsqlDbVersion, CrsqlSeq};
#[allow(unused_imports)]
use crate::ids::hyphenated;
use crate::json::{
    array_value, new_object, null_value, number_value, numbers_value, object_value, set_field,
    single_field, text_value,
};
#[allow(unused_imports)]
use crate::json::{json_of, jsons_of, no_fields, number, Json};
use crate::text::to_one_line;
#[allow(unused_imports)]
use crate::text::{decimal, one_line};
use vstd::prelude::*;

verus! {

/// The address of a member.
#[derive(Debug, Clone, Copy, PartialEq, Eq, Structural)]
pub enum MemberAddr {
    V4 { ip: u32, port: u16 },
    V6 { ip: u128, port: u16, flowinfo: u32, scope_id: u32 },
}

/// A member of the cluster, with its state as JSON.
#[derive(Debug)]
pub struct Member {
    pub id: ActorId,
    pub addr: MemberAddr,
    pub state: serde_json::Value,
}

/// The members of the cluster, and the latest round-trip times to addresses.
#[derive(Debug)]
pub struct Members {
    pub states: Vec<Member>,
    pub rtts: Vec<(MemberAddr, Vec<u64>)>,
}

/// The round-trip times to an address, if there are any on record.
pub open spec fn rtts_to(rtts: Seq<(MemberAddr, Vec<u64>)>, addr: MemberAddr) -> Option<Seq<u64>>
    decreases rtts.len(),
{
    if rtts.len() == 0 {
        None
    } else if rtts[0].0 == addr {
        Some(rtts[0].1@)
    } else {
        rtts_to(rtts.drop_first(), addr)
    }
}

/// The JSON of round-trip times.
pub open spec fn rtts_json(rtts: Option<Seq<u64>>) -> Json {
    match rtts {
        Some(rtts) => Json::Array(rtts.map_values(|rtt: u64| number(rtt as nat))),
        None => Json::Null,
    }
}

/// The report on a member.
pub open spec fn member_json(member: Member, rtts: Seq<(MemberAddr, Vec<u64>)>) -> Json {
    Json::Object(
        no_fields().insert("id"@, Json::Text(member.id.shown())).insert(
            "state"@,
            json_of(member.state),
        ).insert("rtts"@, rtts_json(rtts_to(rtts, member.addr))),
    )
}

/// The reports on the members, in their order.
pub open spec fn members_json(members: Members) -> Seq<Json> {
    members.states@.map_values(|member: Member| member_json(member, members.rtts@))
}

fn rtts_value(rtts: &Vec<(MemberAddr, Vec<u64>)>, addr: MemberAddr) -> (value: serde_json::Value)
    ensures
        json_of(value) == rtts_json(rtts_to(rtts@, addr)),
{
    let mut i: usize = 0;
    assert(rtts@.skip(0) =~= rtts@);
    while i < rtts.len()
        invariant
            i <= rtts.len(),
            rtts_to(rtts@, addr) == rtts_to(rtts@.skip(i as int), addr),
        decreases rtts.len() - i,
    {
        assert(rtts@.skip(i as int)[0] == rtts[i as int]);
        assert(rtts@.skip(i as int).drop_first() =~= rtts@.skip(i + 1));
        if rtts[i].0 == addr {
            return numbers_value(&rtts[i].1);
        }
        i += 1;
    }
    null_value()
}

/// Reports on a member.
pub fn member_value(member: Member, rtts: &Vec<(MemberAddr, Vec<u64>)>) -> (value:
    serde_json::Value)
    ensures
        json_of(value) == member_json(member, rtts@),
{
    let mut fields = new_object();
    set_field(&mut fields, "id".to_owned(), text_value(member.id.text()));
    set_field(&mut fields, "state".to_owned(), member.state);
    set_field(&mut fields, "rtts".to_owned(), rtts_value(rtts, member.addr));
    object_value(fields)
}

/// Reports on the members, one value each.
pub fn member_values(members: Members) -> (values: Vec<serde_json::Value>)
    ensures
        jsons_of(values@) == members_json(members),
{
    let Members { states, rtts } = members;
    let ghost all = states@;
    let mut values: Vec<serde_json::Value> = Vec::new();
    for member in iter: states
        invariant
            iter.seq() == all,
            values.len() == iter.index(),
            forall|k: int|
                0 <= k < iter.index() ==> json_of(#[trigger] values[k]) == member_json(
                    all[k],
                    rtts@,
                ),
    {
        values.push(member_value(member, &rtts));
    }
    assert(jsons_of(values@) =~= members_json(members));
    values
}

/// What the bookkeeping says of a version of a known actor.
#[derive(Debug)]
pub struct BookedVersion {
    /// Whether the version is known.
    pub contained: bool,
    /// What is known of the version, as JSON, where it is known in part.
    pub partial: Option<serde_json::Value>,
}

/// The report on a version that is known in part.
pub open spec fn partial_json(partial: Json) -> Json {
    Json::Object(no_fields().insert("partial"@, partial))
}

/// Reports on a version that is known in part.
pub fn partial_value(partial: serde_json::Value) -> (value: serde_json::Value)
    ensures
        json_of(value) == partial_json(json_of(partial)),
{
    single_field("partial".to_owned(), partial)
}

/// The report on a version that is known in full, from the row found for it.
pub open spec fn version_json(row: Option<(Option<CrsqlDbVersion>, Option<CrsqlSeq>)>) -> Json {
    match row {
        Some((Some(db_version), Some(last_seq))) => Json::Object(
            no_fields().insert(
                "current"@,
                Json::Object(
                    no_fields().insert("db_version"@, number(db_version.0 as nat)).insert(
                        "last_seq"@,
                        number(last_seq.0 as nat),
                    ),
                ),
            ),
        ),
        _ => Json::Text("cleared or unkown"@),
    }
}

/// Reports on a version that is known in full, from the row found for it.
pub fn version_value(row: Option<(Option<CrsqlDbVersion>, Option<CrsqlSeq>)>) -> (value:
    serde_json::Value)
    ensures
        json_of(value) == version_json(row),
{
    match row {
        Some((Some(db_version), Some(last_seq))) => {
            let mut fields = new_object();
            set_field(&mut fields, "db_version".to_owned(), number_value(db_version.0));
            set_field(&mut fields, "last_seq".to_owned(), number_value(last_seq.0));
            single_field("current".to_owned(), object_value(fields))
        },
        _ => text_value("cleared or unkown".to_owned()),
    }
}

/// A subscription in the list of subscriptions.
#[derive(Debug)]
pub struct SubHandle {
    pub id: u128,
    pub hash: String,
    pub sql: String,
}

/// The report on a subscription in the list.
pub open spec fn sub_json(sub: SubHandle) -> Json {
    Json::Object(
        no_fields().insert("id"@, Json::Text(hyphenated(sub.id))).insert(
            "hash"@,
            Json::Text(sub.hash@),
        ).insert("sql"@, Json::Text(one_line(sub.sql@))),
    )
}

/// The report on all subscriptions, in their order.
pub open spec fn subs_json(subs: Seq<SubHandle>) -> Json {
    Json::Array(subs.map_values(|sub: SubHandle| sub_json(sub)))
}

fn sub_value(sub: SubHandle) -> (value: serde_json::Value)
    ensures
        json_of(value) == sub_json(sub),
{
    let mut fields = new_object();
    set_field(&mut fields, "id".to_owned(), text_value(uuid_text(sub.id)));
    set_field(&mut fields, "hash".to_owned(), text_value(sub.hash));
    set_field(&mut fields, "sql".to_owned(), text_value(to_one_line(sub.sql.as_str())));
    object_value(fields)
}

/// Reports on all subscriptions.
pub fn subs_value(subs: Vec<SubHandle>) -> (value: serde_json::Value)
    ensures
        json_of(value) == subs_json(subs@),
{
    let ghost all = subs@;
    let mut values: Vec<serde_json::Value> = Vec::new();
    for sub in iter: subs
        invariant
            iter.seq() == all,
            values.len() == iter.index(),
            forall|k: int|
                0 <= k < iter.index() ==> json_of(#[trigger] values[k]) == sub_json(all[k]),
    {
        values.push(sub_value(sub));
    }
    assert(jsons_of(values@) =~= all.map_values(|sub: SubHandle| sub_json(sub)));
    array_value(values)
}

/// A subscription in full.
#[derive(Debug)]
pub struct Subscription {
    pub id: u128,
    pub hash: String,
    pub path: String,
    pub last_change_id: u64,
    pub sql: String,
    /// For each table, the query that finds what changed in it.
    pub statements: Vec<(String, String)>,
}

/// The report on the query of a table.
pub open spec fn statement_json(statement: (String, String)) -> Json {
    Json::Object(no_fields().insert(statement.0@, Json::Text(statement.1@)))
}

/// The full report on a subscription.
pub open spec fn subscription_json(sub: Subscription) -> Json {
    Json::Object(
        no_fields().insert("id"@, Json::Text(hyphenated(sub.id))).insert(
            "hash"@,
            Json::Text(sub.hash@),
        ).insert("path"@, Json::Text(sub.path@)).insert(
            "last_change_id"@,
            number(sub.last_change_id as nat),
        ).insert("original_query"@, Json::Text(one_line(sub.sql@))).insert(
            "statements"@,
            Json::Array(
                sub.statements@.map_values(
                    |statement: (String, String)| statement_json(statement),
                ),
            ),
        ),
    )
}

/// Reports on a subscription in full.
pub fn subscription_value(sub: Subscription) -> (value: serde_json::Value)
    ensures
        json_of(value) == subscription_json(sub),
{
    let Subscription { id, hash, path, last_change_id, sql, statements } = sub;
    let ghost all = statements@;
    let mut values: Vec<serde_json::Value> = Vec::new();
    for statement in iter: statements
        invariant
            iter.seq() == all,
            values.len() == iter.index(),
            forall|k: int|
                0 <= k < iter.index() ==> json_of(#[trigger] values[k]) == statement_json(all[k]),
    {
        let (table, query) = statement;
        values.push(single_field(table, text_value(query)));
    }
    assert(jsons_of(values@) =~= all.map_values(
        |statement: (String, String)| statement_json(statement),
    ));
    let mut fields = new_object();
    set_field(&mut fields, "id".to_owned(), text_value(uuid_text(id)));
    set_field(&mut fields, "hash".to_owned(), text_value(hash));
    set_field(&mut fields, "path".to_owned(), text_value(path));
    set_field(&mut fields, "last_change_id".to_owned(), number_value(last_change_id));
    set_field(&mut fields, "original_query".to_owned(), text_value(to_one_line(sql.as_str())));
    set_field(&mut fields, "statements".to_owned(), array_value(values));
    object_value(fields)
}

/// The value is an object that has these fields and no other.
pub open spec fn has_only(json: Json, keys: Set<Seq<char>>) -> bool {
    json matches Json::Object(fields) && fields.dom() == keys
}

/// What an object has in a field.
pub open spec fn field(json: Json, key: Seq<char>) -> Json {
    json->Object_0[key]
}

proof fn lemma_keys_differ()
    ensures
        "id"@ != "state"@,
        "id"@ != "rtts"@,
        "state"@ != "rtts"@,
        "id"@ != "hash"@,
        "id"@ != "sql"@,
        "hash"@ != "sql"@,
        "db_version"@ != "last_seq"@,
        "id"@ != "path"@,
        "id"@ != "last_change_id"@,
        "id"@ != "original_query"@,
        "id"@ != "statements"@,
        "hash"@ != "path"@,
        "hash"@ != "last_change_id"@,
        "hash"@ != "original_query"@,
        "hash"@ != "statements"@,
        "path"@ != "last_change_id"@,
        "path"@ != "original_query"@,
        "path"@ != "statements"@,
        "last_change_id"@ != "original_query"@,
        "last_change_id"@ != "statements"@,
        "original_query"@ != "statements"@,
{
    reveal_strlit("id");
    reveal_strlit("state");
    reveal_strlit("rtts");
    reveal_strlit("hash");
    reveal_strlit("sql");
    reveal_strlit("path");
    reveal_strlit("db_version");
    reveal_strlit("last_seq");
    reveal_strlit("last_change_id");
    reveal_strlit("original_query");
    reveal_strlit("statements");
    assert("id"@.len() == 2 && "id"@[0] == 'i');
    assert("state"@.len() == 5 && "state"@[0] == 's');
    assert("rtts"@.len() == 4 && "rtts"@[0] == 'r');
    assert("hash"@.len() == 4 && "hash"@[0] == 'h');
    assert("sql"@.len() == 3 && "sql"@[0] == 's');
    assert("path"@.len() == 4 && "path"@[0] == 'p');
    assert("db_version"@.len() == 10 && "db_version"@[0] == 'd');
    assert("last_seq"@.len() == 8 && "last_seq"@[0] == 'l');
    assert("last_change_id"@.len() == 14 && "last_change_id"@[0] == 'l');
    assert("original_query"@.len() == 14 && "original_query"@[0] == 'o');
    assert("statements"@.len() == 10 && "statements"@[0] == 's');
}

/// The first record of round-trip times to the address is the one at the index.
pub open spec fn first_record(
    rtts: Seq<(MemberAddr, Vec<u64>)>,
    addr: MemberAddr,
    i: int,
) -> bool {
    &&& 0 <= i < rtts.len()
    &&& rtts[i].0 == addr
    &&& forall|k: int| 0 <= k < i ==> (#[trigger] rtts[k]).0 != addr
}

proof fn lemma_rtts_on_record(rtts: Seq<(MemberAddr, Vec<u64>)>, addr: MemberAddr, i: int)
    requires
        first_record(rtts, addr, i),
    ensures
        rtts_to(rtts, addr) == Some(rtts[i].1@),
    decreases i,
{
    if i > 0 {
        let rest = rtts.drop_first();
        assert(rtts[0].0 != addr);
        assert forall|k: int| 0 <= k < i - 1 implies (#[trigger] rest[k]).0 != addr by {
            assert(rest[k] == rtts[k + 1]);
        }
        lemma_rtts_on_record(rest, addr, i - 1);
    }
}

proof fn lemma_no_rtts_on_record(rtts: Seq<(MemberAddr, Vec<u64>)>, addr: MemberAddr)
    requires
        forall|k: int| 0 <= k < rtts.len() ==> (#[trigger] rtts[k]).0 != addr,
    ensures
        rtts_to(rtts, addr) is None,
    decreases rtts.len(),
{
    if rtts.len() > 0 {
        let rest = rtts.drop_first();
        assert forall|k: int| 0 <= k < rest.len() implies (#[trigger] rest[k]).0 != addr by {
            assert(rest[k] == rtts[k + 1]);
        }
        assert(rtts[0].0 != addr);
        lemma_no_rtts_on_record(rest, addr);
    }
}

/// The value is the report on the member: its id, its state and the round-trip times to its own
/// address, all of them and in order, or null where none are on record.
pub open spec fn reports_member(
    json: Json,
    member: Member,
    rtts: Seq<(MemberAddr, Vec<u64>)>,
) -> bool {
    &&& has_only(json, set!["id"@, "state"@, "rtts"@])
    &&& field(json, "id"@) == Json::Text(hyphenated(member.id.0))
    &&& field(json, "state"@) == json_of(member.state)
    &&& forall|i: int| #[trigger]
        first_record(rtts, member.addr, i) ==> (field(json, "rtts"@) matches Json::Array(times)
            && times.len() == rtts[i].1@.len() && forall|k: int|
            0 <= k < times.len() ==> #[trigger] times[k] == Json::Number(
                decimal(rtts[i].1@[k] as nat),
            ))
    &&& (forall|i: int| 0 <= i < rtts.len() ==> (#[trigger] rtts[i]).0 != member.addr) ==> field(
        json,
        "rtts"@,
    ) == Json::Null
}

/// Every member is reported, once, in order and in full.
pub proof fn law_every_member_is_reported(members: Members)
    ensures
        members_json(members).len() == members.states@.len(),
        forall|i: int|
            0 <= i < members.states@.len() ==> reports_member(
                #[trigger] members_json(members)[i],
                members.states@[i],
                members.rtts@,
            ),
{
    lemma_keys_differ();
    let rtts = members.rtts@;
    assert forall|i: int| 0 <= i < members.states@.len() implies reports_member(
        #[trigger] members_json(members)[i],
        members.states@[i],
        rtts,
    ) by {
        let member = members.states@[i];
        let json = members_json(members)[i];
        assert(json->Object_0.dom() =~= set!["id"@, "state"@, "rtts"@]);
        assert forall|n: int| #[trigger] first_record(rtts, member.addr, n) implies (field(
            json,
            "rtts"@,
        ) matches Json::Array(times) && times.len() == rtts[n].1@.len() && forall|k: int|
            0 <= k < times.len() ==> #[trigger] times[k] == Json::Number(
                decimal(rtts[n].1@[k] as nat),
            )) by {
            lemma_rtts_on_record(rtts, member.addr, n);
        }
        if forall|n: int| 0 <= n < rtts.len() ==> (#[trigger] rtts[n]).0 != member.addr {
            lemma_no_rtts_on_record(rtts, member.addr);
        }
    }
}

/// The value is the report on what is known of a version in part: that, in a field of its own.
pub open spec fn reports_partial(json: Json, partial: Json) -> bool {
    has_only(json, set!["partial"@]) && field(json, "partial"@) == partial
}

/// What is known of a version in part is reported as it is.
pub proof fn law_partial_is_reported(partial: Json)
    ensures
        reports_partial(partial_json(partial), partial),
{
    assert(partial_json(partial)->Object_0.dom() =~= set!["partial"@]);
}

/// The value is the report on the row of a version: both of its numbers, or, where one of them or
/// the row itself is missing, that the version is cleared or not known.
pub open spec fn reports_row(
    json: Json,
    row: Option<(Option<CrsqlDbVersion>, Option<CrsqlSeq>)>,
) -> bool {
    match row {
        Some((Some(db_version), Some(last_seq))) => {
            let current = field(json, "current"@);
            &&& has_only(json, set!["current"@])
            &&& has_only(current, set!["db_version"@, "last_seq"@])
            &&& field(current, "db_version"@) == Json::Number(decimal(db_version.0 as nat))
            &&& field(current, "last_seq"@) == Json::Number(decimal(last_seq.0 as nat))
        },
        _ => json == Json::Text("cleared or unkown"@),
    }
}

/// A version is reported with the numbers of its row.
pub proof fn law_version_is_reported(row: Option<(Option<CrsqlDbVersion>, Option<CrsqlSeq>)>)
    ensures
        reports_row(version_json(row), row),
{
    lemma_keys_differ();
    if let Some((Some(db_version), Some(last_seq))) = row {
        let json = version_json(row);
        assert(json->Object_0.dom() =~= set!["current"@]);
        assert(field(json, "current"@)->Object_0.dom() =~= set!["db_version"@, "last_seq"@]);
    }
}

/// The value is the report on a subscription in the list: its id, its hash, and its statement on
/// one line.
pub open spec fn reports_handle(json: Json, sub: SubHandle) -> bool {
    &&& has_only(json, set!["id"@, "hash"@, "sql"@])
    &&& field(json, "id"@) == Json::Text(hyphenated(sub.id))
    &&& field(json, "hash"@) == Json::Text(sub.hash@)
    &&& field(json, "sql"@) == Json::Text(one_line(sub.sql@))
}

/// The value is the list of the reports on the subscriptions: of every one, once and in order.
pub open spec fn reports_subs(json: Json, subs: Seq<SubHandle>) -> bool {
    json matches Json::Array(listed) && listed.len() == subs.len() && forall|i: int|
        0 <= i < listed.len() ==> reports_handle(#[trigger] listed[i], subs[i])
}

/// Every subscription is listed.
pub proof fn law_every_subscription_is_listed(subs: Seq<SubHandle>)
    ensures
        reports_subs(subs_json(subs), subs),
{
    lemma_keys_differ();
    let listed = subs_json(subs)->Array_0;
    assert forall|i: int| 0 <= i < listed.len() implies reports_handle(
        #[trigger] listed[i],
        subs[i],
    ) by {
        assert(listed[i] == sub_json(subs[i]));
        assert(listed[i]->Object_0.dom() =~= set!["id"@, "hash"@, "sql"@]);
    }
}

/// The value is an object that has the query of the table under its name.
pub open spec fn reports_statement(json: Json, statement: (String, String)) -> bool {
    has_only(json, set![statement.0@]) && field(json, statement.0@) == Json::Text(statement.1@)
}

/// The value is the full report on a subscription: its id, hash, path and last change, its query on
/// one line, and the query of every table, once and in order.
pub open spec fn reports_subscription(json: Json, sub: Subscription) -> bool {
    &&& has_only(
        json,
        set!["id"@, "hash"@, "path"@, "last_change_id"@, "original_query"@, "statements"@],
    )
    &&& field(json, "id"@) == Json::Text(hyphenated(sub.id))
    &&& field(json, "hash"@) == Json::Text(sub.hash@)
    &&& field(json, "path"@) == Json::Text(sub.path@)
    &&& field(json, "last_change_id"@) == Json::Number(decimal(sub.last_change_id as nat))
    &&& field(json, "original_query"@) == Json::Text(one_line(sub.sql@))
    &&& field(json, "statements"@) matches Json::Array(statements) && statements.len()
        == sub.statements@.len() && forall|i: int|
        0 <= i < statements.len() ==> reports_statement(
            #[trigger] statements[i],
            sub.statements@[i],
        )
}

/// A subscription is reported in full.
pub proof fn law_subscription_is_reported(sub: Subscription)
    ensures
        reports_subscription(subscription_json(sub), sub),
{
    lemma_keys_differ();
    let json = subscription_json(sub);
    assert(json->Object_0.dom() =~= set![
        "id"@,
        "hash"@,
        "path"@,
        "last_change_id"@,
        "original_query"@,
        "statements"@,
    ]);
    let statements = field(json, "statements"@)->Array_0;
    assert forall|i: int| 0 <= i < statements.len() implies reports_statement(
        #[trigger] statements[i],
        sub.statements@[i],
    ) by {
        assert(statements[i] == statement_json(sub.statements@[i]));
        assert(statements[i]->Object_0.dom() =~= set![sub.statements@[i].0@]);
    }
}

} // verus!
