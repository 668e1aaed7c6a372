//! `list`: every server with its tools, in name order.
use crate::json::JsonValue;
use crate::output::{ServerInfo, ToolInfo};
use crate::text::{cat3, chars_of};
use vstd::prelude::*;
use vstd::seq_lib::{to_multiset_build, to_multiset_insert};

verus! {

/// What the listing is asked to do.
pub struct ListOptions {
    pub with_descriptions: bool,
    pub config_path: Option<String>,
}

/// What was learned from one server: its tools and instructions, or the
/// error that stopped the listing.
pub struct ServerWithTools {
    pub name: String,
    pub tools: Vec<ToolInfo>,
    pub instructions: Option<String>,
    pub error: Option<String>,
}

/// `a` comes no later than `b` in the order of their characters' code
/// points (the order of `str`'s comparison, since UTF-8 keeps it).
pub open spec fn name_le(a: Seq<char>, b: Seq<char>) -> bool
    decreases a.len(),
{
    if a.len() == 0 {
        true
    } else if b.len() == 0 {
        false
    } else if (a[0] as u32) < (b[0] as u32) {
        true
    } else if (a[0] as u32) > (b[0] as u32) {
        false
    } else {
        name_le(a.drop_first(), b.drop_first())
    }
}

/// Any two names are ordered one way or the other.
pub proof fn lemma_name_le_total(a: Seq<char>, b: Seq<char>)
    ensures
        name_le(a, b) || name_le(b, a),
    decreases a.len(),
{
    if a.len() > 0 && b.len() > 0 && a[0] as u32 == b[0] as u32 {
        lemma_name_le_total(a.drop_first(), b.drop_first());
    }
}

/// The order of names is transitive.
pub proof fn lemma_name_le_transitive(a: Seq<char>, b: Seq<char>, c: Seq<char>)
    requires
        name_le(a, b),
        name_le(b, c),
    ensures
        name_le(a, c),
    decreases a.len(),
{
    if a.len() > 0 && b.len() > 0 && c.len() > 0 {
        if a[0] as u32 == b[0] as u32 && b[0] as u32 == c[0] as u32 {
            lemma_name_le_transitive(a.drop_first(), b.drop_first(), c.drop_first());
        }
    }
}

/// The servers are in name order.
pub open spec fn sorted_by_name(s: Seq<ServerWithTools>) -> bool {
    forall|i: int, j: int| 0 <= i < j < s.len() ==> name_le(#[trigger] s[i].name@, #[trigger] s[j].name@)
}

/// Whether `a` comes no later than `b`.
pub fn name_le_exec(a: &str, b: &str) -> (r: bool)
    ensures
        r == name_le(a@, b@),
{
    let va = chars_of(a);
    let vb = chars_of(b);
    let mut i: usize = 0;
    assert(va@.skip(0) == a@ && vb@.skip(0) == b@);
    loop
        invariant
            va@ == a@,
            vb@ == b@,
            i <= va.len(),
            i <= vb.len(),
            name_le(va@.skip(i as int), vb@.skip(i as int)) == name_le(a@, b@),
        decreases va.len() - i,
    {
        if i == va.len() {
            return true;
        }
        if i == vb.len() {
            return false;
        }
        let x = va[i] as u32;
        let y = vb[i] as u32;
        assert(va@.skip(i as int)[0] == va@[i as int] && vb@.skip(i as int)[0] == vb@[i as int]);
        if x < y {
            return true;
        }
        if x > y {
            return false;
        }
        assert(va@.skip(i as int).drop_first() == va@.skip(i + 1));
        assert(vb@.skip(i as int).drop_first() == vb@.skip(i + 1));
        i = i + 1;
    }
}

/// The servers in name order (a stable insertion sort).
pub fn sort_by_name(servers: Vec<ServerWithTools>) -> (r: Vec<ServerWithTools>)
    ensures
        sorted_by_name(r@),
        r@.to_multiset() == servers@.to_multiset(),
{
    let ghost all = servers@;
    let total = servers.len();
    let mut rest = servers;
    let mut sorted: Vec<ServerWithTools> = Vec::new();
    let mut taken: usize = 0;
    assert(all.take(0) =~= sorted@);
    assert(all.skip(0) == all);
    while rest.len() > 0
        invariant
            taken + rest@.len() == all.len(),
            all.len() == total,
            rest@ == all.skip(taken as int),
            sorted_by_name(sorted@),
            sorted@.to_multiset() == all.take(taken as int).to_multiset(),
        decreases rest.len(),
    {
        let item = rest.remove(0);
        assert(item == all[taken as int]);
        assert(rest@ == all.skip(taken + 1));
        assert(all.take(taken + 1) == all.take(taken as int).push(item));
        let mut p: usize = 0;
        while p < sorted.len() && name_le_exec(sorted[p].name.as_str(), item.name.as_str())
            invariant
                p <= sorted.len(),
                forall|k: int| 0 <= k < p ==> name_le(#[trigger] sorted@[k].name@, item.name@),
            decreases sorted.len() - p,
        {
            p = p + 1;
        }
        proof {
            if p < sorted.len() {
                lemma_name_le_total(sorted@[p as int].name@, item.name@);
            }
        }
        let ghost before = sorted@;
        sorted.insert(p, item);
        assert(sorted@ == before.insert(p as int, item));
        proof {
            to_multiset_insert(before, p as int, item);
            to_multiset_build(all.take(taken as int), item);
            assert forall|i: int, j: int| 0 <= i < j < sorted@.len() implies name_le(
                #[trigger] sorted@[i].name@,
                #[trigger] sorted@[j].name@,
            ) by {
                if j < p {
                    assert(sorted@[i] == before[i] && sorted@[j] == before[j]);
                } else if j == p {
                    assert(sorted@[i] == before[i]);
                } else if i == p {
                    assert(sorted@[j] == before[j - 1]);
                    assert(name_le(item.name@, before[p as int].name@));
                    if j - 1 > p {
                        lemma_name_le_transitive(item.name@, before[p as int].name@, before[j - 1].name@);
                    }
                } else if i < p {
                    assert(sorted@[i] == before[i] && sorted@[j] == before[j - 1]);
                } else {
                    assert(sorted@[i] == before[i - 1] && sorted@[j] == before[j - 1]);
                }
            }
        }
        taken = taken + 1;
    }
    assert(all.take(taken as int) == all);
    sorted
}

/// The listing of one server: its tools, or a single entry that names the
/// error where listing failed.
pub open spec fn listed_tools_ok(s: ServerWithTools, r: ServerInfo) -> bool {
    &&& r.name@ == s.name@
    &&& crate::json::opt_text(r.instructions) == crate::json::opt_text(s.instructions)
    &&& match s.error {
        Some(err) => r.tools@.len() == 1 && r.tools@[0].name@ == "<error: "@ + err@ + ">"@
            && r.tools@[0].description is None && r.tools@[0].input_schema == JsonValue::Object(
            r.tools@[0].input_schema->Object_0,
        ) && r.tools@[0].input_schema->Object_0@.len() == 0,
        None => r.tools == s.tools,
    }
}

/// The listing of one server.
pub fn server_info_of(s: ServerWithTools) -> (r: ServerInfo)
    ensures
        listed_tools_ok(s, r),
{
    let tools = match s.error {
        Some(err) => {
            let mut v: Vec<ToolInfo> = Vec::new();
            v.push(
                ToolInfo {
                    name: cat3("<error: ", err.as_str(), ">"),
                    description: None,
                    input_schema: JsonValue::Object(Vec::new()),
                },
            );
            v
        },
        None => s.tools,
    };
    ServerInfo { name: s.name, instructions: s.instructions, tools }
}

/// The listings of all servers, in name order.
pub fn server_infos(servers: Vec<ServerWithTools>) -> (r: Vec<ServerInfo>)
    ensures
        exists|sorted: Seq<ServerWithTools>|
            sorted_by_name(sorted) && sorted.to_multiset() == servers@.to_multiset() && sorted.len()
                == r@.len() && forall|i: int|
                0 <= i < r@.len() ==> listed_tools_ok(#[trigger] sorted[i], r@[i]),
{
    let sorted = sort_by_name(servers);
    let ghost s = sorted@;
    let total = sorted.len();
    let mut rest = sorted;
    let mut out: Vec<ServerInfo> = Vec::new();
    let mut taken: usize = 0;
    assert(s.skip(0) == s);
    while rest.len() > 0
        invariant
            taken + rest@.len() == s.len(),
            s.len() == total,
            rest@ == s.skip(taken as int),
            out@.len() == taken,
            forall|i: int| 0 <= i < taken ==> listed_tools_ok(#[trigger] s[i], out@[i]),
        decreases rest.len(),
    {
        let item = rest.remove(0);
        assert(item == s[taken as int]);
        assert(rest@ == s.skip(taken + 1));
        out.push(server_info_of(item));
        taken = taken + 1;
    }
    out
}

} // verus!
