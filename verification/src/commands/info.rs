//! `info`: show a server or one tool.
use crate::output::ToolInfo;
use crate::cli::target_text;
use crate::text::{join, join_strings, lemma_join_split, lemma_split_after_first, lemma_split_state_without, split, split_string, str_eq, views};
use vstd::prelude::*;

verus! {

/// What `info` is asked to do.
pub struct InfoOptions {
    /// `server` or `server/tool`.
    pub target: String,
    pub with_descriptions: bool,
    pub config_path: Option<String>,
}

/// The server and tool of an `info` target: the text before the first `/`,
/// and everything after it where there is a `/`.
pub open spec fn info_target(target: Seq<char>) -> (Seq<char>, Option<Seq<char>>) {
    let parts = split(target, '/');
    if parts.len() == 1 {
        (parts[0], None)
    } else {
        (parts[0], Some(join(parts.skip(1), "/"@)))
    }
}

/// The server and, where named, the tool of an `info` target.
pub fn parse_target(target: &str) -> (r: (String, Option<String>))
    ensures
        r.0@ == info_target(target@).0,
        crate::json::opt_text(r.1) == info_target(target@).1,
{
    let parts = split_string(target, '/');
    assert(views(parts@).len() == parts@.len());
    assert(views(parts@)[0] == parts@[0]@);
    if parts.len() == 1 {
        return (parts[0].clone(), None);
    }
    let mut rest: Vec<String> = Vec::new();
    let mut i: usize = 1;
    while i < parts.len()
        invariant
            1 <= i <= parts.len(),
            views(rest@) == views(parts@).subrange(1, i as int),
        decreases parts.len() - i,
    {
        let ghost before = rest@;
        rest.push(parts[i].clone());
        assert(views(rest@) == views(before).push(parts@[i as int]@));
        assert(views(parts@).subrange(1, i + 1) == views(parts@).subrange(1, i as int).push(
            views(parts@)[i as int],
        ));
        i = i + 1;
    }
    assert(views(parts@).subrange(1, parts.len() as int) == views(parts@).skip(1));
    (parts[0].clone(), Some(join_strings(rest.as_slice(), "/")))
}

/// Law: the target that the command line builds from a server (without
/// `/`) and an optional tool is read back as that server and tool.
pub proof fn law_info_target_roundtrip(server: Seq<char>, tool: Option<Seq<char>>)
    requires
        forall|i: int| 0 <= i < server.len() ==> server[i] != '/',
    ensures
        info_target(target_text(Some(server), tool)) == (server, tool),
{
    match tool {
        None => {
            lemma_split_state_without(server, '/');
            assert(split(server, '/') == seq![server]);
            assert(target_text(Some(server), tool) == server);
            assert(split(server, '/').len() == 1);
            assert(info_target(server) == (server, None::<Seq<char>>));
        },
        Some(t) => {
            reveal_strlit("/");
            assert("/"@ =~= seq!['/']);
            assert(target_text(Some(server), tool) == server + seq!['/'] + t);
            lemma_split_after_first(server, t, '/');
            lemma_join_split(t, '/');
            let parts = split(server + seq!['/'] + t, '/');
            assert(parts.skip(1) == split(t, '/'));
            assert(parts.len() > 1);
            assert(parts[0] == server);
            assert(join(parts.skip(1), "/"@) == t);
            assert(info_target(server + seq!['/'] + t) == (server, Some(t)));
        },
    }
}

/// The position of the first tool named `name`.
pub open spec fn tool_position(tools: Seq<ToolInfo>, name: Seq<char>) -> Option<int> {
    if exists|i: int| 0 <= i < tools.len() && tools[i].name@ == name {
        Some(choose|i: int| 0 <= i < tools.len() && tools[i].name@ == name && forall|j: int| 0 <= j < i ==> tools[j].name@ != name)
    } else {
        None
    }
}

/// The position of the first tool named `name`.
pub fn find_tool(tools: &[ToolInfo], name: &str) -> (r: Option<usize>)
    ensures
        match r {
            Some(i) => i < tools@.len() && tools@[i as int].name@ == name@ && forall|j: int|
                0 <= j < i ==> tools@[j].name@ != name@,
            None => forall|j: int| 0 <= j < tools@.len() ==> tools@[j].name@ != name@,
        },
{
    let mut i: usize = 0;
    while i < tools.len()
        invariant
            i <= tools.len(),
            forall|j: int| 0 <= j < i ==> tools@[j].name@ != name@,
        decreases tools.len() - i,
    {
        if str_eq(tools[i].name.as_str(), name) {
            return Some(i);
        }
        i = i + 1;
    }
    None
}

/// The names of the tools, in order.
pub fn tool_names(tools: &[ToolInfo]) -> (r: Vec<String>)
    ensures
        views(r@) == tools@.map_values(|t: ToolInfo| t.name@),
{
    let mut r: Vec<String> = Vec::new();
    let mut i: usize = 0;
    while i < tools.len()
        invariant
            i <= tools.len(),
            views(r@) == tools@.take(i as int).map_values(|t: ToolInfo| t.name@),
        decreases tools.len() - i,
    {
        let ghost before = r@;
        r.push(tools[i].name.clone());
        assert(views(r@) == views(before).push(tools@[i as int].name@));
        assert(tools@.take(i + 1).map_values(|t: ToolInfo| t.name@) == tools@.take(i as int).map_values(
            |t: ToolInfo| t.name@,
        ).push(tools@[i as int].name@));
        i = i + 1;
    }
    assert(tools@.take(tools.len() as int) == tools@);
    r
}

} // verus!
