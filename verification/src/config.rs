//! Agent configuration: the agents that `abd acp` can run, read from layered
//! `agents.yaml` files (the user's home, then the workspace, then an explicit
//! file) where a later layer's agent replaces an earlier one with the same id.
use vstd::prelude::*;
use crate::text::{concat, concat3, is_blank, str_eq, trim, trim_str};

verus! {

/// How to start an agent: a command, its arguments and extra environment.
#[derive(Debug)]
pub struct AgentSpec {
    pub command: String,
    pub args: Vec<String>,
    pub env: Vec<(String, String)>,
}

/// Abstract value of an [`AgentSpec`].
pub struct AgentSpecV {
    pub command: Seq<char>,
    pub args: Seq<Seq<char>>,
    pub env: Seq<(Seq<char>, Seq<char>)>,
}

impl View for AgentSpec {
    type V = AgentSpecV;

    open spec fn view(&self) -> AgentSpecV {
        AgentSpecV {
            command: self.command@,
            args: self.args@.map_values(|a: String| a@),
            env: self.env@.map_values(|e: (String, String)| (e.0@, e.1@)),
        }
    }
}

/// Abstract value of a list of `(id, agent)` entries.
pub open spec fn entry_views(s: Seq<(String, AgentSpec)>) -> Seq<(Seq<char>, AgentSpecV)> {
    s.map_values(|e: (String, AgentSpec)| (e.0@, e.1@))
}

/// The agents named by `s`, where a later entry replaces an earlier one with
/// the same id.
pub open spec fn entries_map(s: Seq<(Seq<char>, AgentSpecV)>) -> Map<Seq<char>, AgentSpecV>
    decreases s.len(),
{
    if s.len() == 0 {
        Map::empty()
    } else {
        entries_map(s.drop_last()).insert(s.last().0, s.last().1)
    }
}

/// The id of the first entry whose command is empty or only whitespace.
pub open spec fn first_blank_id(s: Seq<(Seq<char>, AgentSpecV)>) -> Option<Seq<char>>
    decreases s.len(),
{
    if s.len() == 0 {
        None
    } else if trim(s[0].1.command).len() == 0 {
        Some(s[0].0)
    } else {
        first_blank_id(s.drop_first())
    }
}

/// The entries with each command trimmed of surrounding whitespace.
pub open spec fn trim_commands(s: Seq<(Seq<char>, AgentSpecV)>) -> Seq<(Seq<char>, AgentSpecV)> {
    s.map_values(
        |e: (Seq<char>, AgentSpecV)|
            (e.0, AgentSpecV { command: trim(e.1.command), args: e.1.args, env: e.1.env }),
    )
}

/// The agents known to `abd acp`, by id.
#[derive(Debug)]
pub struct AgentMap {
    entries: Vec<(String, AgentSpec)>,
}

impl View for AgentMap {
    type V = Map<Seq<char>, AgentSpecV>;

    closed spec fn view(&self) -> Map<Seq<char>, AgentSpecV> {
        entries_map(entry_views(self.entries@))
    }
}

/// Why the agent configuration could not be loaded, or an agent not found.
#[derive(Debug)]
pub enum ConfigError {
    NotFound(String),
    Unreadable(String),
    Invalid { path: String, detail: String },
    EmptyCommand { path: String, id: String },
    UnknownAgent(String),
}

/// Abstract value of a [`ConfigError`].
pub enum ConfigErrorV {
    NotFound(Seq<char>),
    Unreadable(Seq<char>),
    Invalid { path: Seq<char>, detail: Seq<char> },
    EmptyCommand { path: Seq<char>, id: Seq<char> },
    UnknownAgent(Seq<char>),
}

impl View for ConfigError {
    type V = ConfigErrorV;

    open spec fn view(&self) -> ConfigErrorV {
        match self {
            ConfigError::NotFound(p) => ConfigErrorV::NotFound(p@),
            ConfigError::Unreadable(p) => ConfigErrorV::Unreadable(p@),
            ConfigError::Invalid { path, detail } => ConfigErrorV::Invalid {
                path: path@,
                detail: detail@,
            },
            ConfigError::EmptyCommand { path, id } => ConfigErrorV::EmptyCommand {
                path: path@,
                id: id@,
            },
            ConfigError::UnknownAgent(id) => ConfigErrorV::UnknownAgent(id@),
        }
    }
}

impl ConfigErrorV {
    /// The text of the error as the board prints it.
    pub open spec fn message(self) -> Seq<char> {
        match self {
            ConfigErrorV::NotFound(p) => "agents config file not found: "@ + p,
            ConfigErrorV::Unreadable(p) => "failed to read "@ + p,
            ConfigErrorV::Invalid { path, detail } => "invalid agents file "@ + path + ": "@
                + detail,
            ConfigErrorV::EmptyCommand { path, id } => "invalid agents file "@ + path + ": agent "@
                + id + " has empty command"@,
            ConfigErrorV::UnknownAgent(id) => "unknown agent "@ + id,
        }
    }
}

impl ConfigError {
    /// The text of the error as the board prints it.
    pub fn message(&self) -> (r: String)
        ensures
            r@ == self@.message(),
    {
        match self {
            ConfigError::NotFound(p) => concat("agents config file not found: ", p.as_str()),
            ConfigError::Unreadable(p) => concat("failed to read ", p.as_str()),
            ConfigError::Invalid { path, detail } => {
                let mut r = concat3("invalid agents file ", path.as_str(), ": ");
                r.append(detail.as_str());
                r
            },
            ConfigError::EmptyCommand { path, id } => {
                let mut r = concat3("invalid agents file ", path.as_str(), ": agent ");
                r.append(id.as_str());
                r.append(" has empty command");
                r
            },
            ConfigError::UnknownAgent(id) => concat("unknown agent ", id.as_str()),
        }
    }
}

/// What was found at the path of an agents file.
pub enum AgentFile {
    /// No regular file is there.
    Absent,
    /// The file is there but could not be read.
    Unreadable,
    /// The file was read but is not a valid agents file; the parser's reason.
    Malformed(String),
    /// The file's `agents` table, in the order of its ids.
    Parsed(Vec<(String, AgentSpec)>),
}

/// An agents file: its path as displayed, and what was found there.
pub struct AgentSource {
    pub path: String,
    pub file: AgentFile,
}

/// Abstract value of an [`AgentFile`].
pub enum AgentFileV {
    Absent,
    Unreadable,
    Malformed(Seq<char>),
    Parsed(Seq<(Seq<char>, AgentSpecV)>),
}

/// Abstract value of an [`AgentSource`].
pub struct AgentSourceV {
    pub path: Seq<char>,
    pub file: AgentFileV,
}

impl View for AgentSource {
    type V = AgentSourceV;

    open spec fn view(&self) -> AgentSourceV {
        AgentSourceV {
            path: self.path@,
            file: match self.file {
                AgentFile::Absent => AgentFileV::Absent,
                AgentFile::Unreadable => AgentFileV::Unreadable,
                AgentFile::Malformed(d) => AgentFileV::Malformed(d@),
                AgentFile::Parsed(es) => AgentFileV::Parsed(entry_views(es@)),
            },
        }
    }
}

/// The agents one file contributes, or why it cannot. A missing file adds no
/// agent unless it is `required`.
pub open spec fn layer_outcome(src: AgentSourceV, required: bool) -> Result<
    Seq<(Seq<char>, AgentSpecV)>,
    ConfigErrorV,
> {
    match src.file {
        AgentFileV::Absent => if required {
            Err(ConfigErrorV::NotFound(src.path))
        } else {
            Ok(Seq::empty())
        },
        AgentFileV::Unreadable => Err(ConfigErrorV::Unreadable(src.path)),
        AgentFileV::Malformed(d) => Err(ConfigErrorV::Invalid { path: src.path, detail: d }),
        AgentFileV::Parsed(es) => match first_blank_id(es) {
            Some(id) => Err(ConfigErrorV::EmptyCommand { path: src.path, id }),
            None => Ok(trim_commands(es)),
        },
    }
}

/// The agents an optional file contributes.
pub open spec fn opt_layer_outcome(src: Option<AgentSourceV>, required: bool) -> Result<
    Seq<(Seq<char>, AgentSpecV)>,
    ConfigErrorV,
> {
    match src {
        Some(s) => layer_outcome(s, required),
        None => Ok(Seq::empty()),
    }
}

/// The agents of the three layers, later layers replacing earlier ids, or the
/// first layer's error.
pub open spec fn load_outcome(
    home: Option<AgentSourceV>,
    workspace: AgentSourceV,
    extra: Option<AgentSourceV>,
) -> Result<Map<Seq<char>, AgentSpecV>, ConfigErrorV> {
    match opt_layer_outcome(home, false) {
        Err(e) => Err(e),
        Ok(h) => match layer_outcome(workspace, false) {
            Err(e) => Err(e),
            Ok(w) => match opt_layer_outcome(extra, true) {
                Err(e) => Err(e),
                Ok(x) => Ok(entries_map(h + w + x)),
            },
        },
    }
}

/// The view of an optional agents file.
pub open spec fn opt_source_view(s: Option<AgentSource>) -> Option<AgentSourceV> {
    match s {
        Some(x) => Some(x@),
        None => None,
    }
}

proof fn lemma_entries_map_append(a: Seq<(Seq<char>, AgentSpecV)>, b: Seq<(Seq<char>, AgentSpecV)>)
    ensures
        entries_map(a + b) == entries_map(a).union_prefer_right(entries_map(b)),
    decreases b.len(),
{
    if b.len() == 0 {
        assert(a + b =~= a);
        assert(entries_map(a).union_prefer_right(Map::empty()) =~= entries_map(a));
    } else {
        lemma_entries_map_append(a, b.drop_last());
        assert((a + b).drop_last() =~= a + b.drop_last());
        assert((a + b).last() == b.last());
        assert(entries_map(a + b) =~= entries_map(a).union_prefer_right(entries_map(b)));
    }
}

/// The layer law: merging a later layer over an earlier one keeps every id
/// that only the earlier one names and takes the later one's agent for every
/// id the later one names.
pub proof fn lemma_later_layer_wins(
    earlier: Seq<(Seq<char>, AgentSpecV)>,
    later: Seq<(Seq<char>, AgentSpecV)>,
    id: Seq<char>,
)
    ensures
        entries_map(later).contains_key(id) ==> entries_map(earlier + later).contains_key(id)
            && entries_map(earlier + later)[id] == entries_map(later)[id],
        !entries_map(later).contains_key(id) ==> (entries_map(earlier + later).contains_key(id)
            == entries_map(earlier).contains_key(id)) && (entries_map(earlier).contains_key(id)
            ==> entries_map(earlier + later)[id] == entries_map(earlier)[id]),
{
    lemma_entries_map_append(earlier, later);
}

/// The agent the last entry with key `id` names, scanning from the end.
proof fn lemma_entries_map_last(s: Seq<(Seq<char>, AgentSpecV)>, id: Seq<char>, i: int)
    requires
        0 <= i < s.len(),
        s[i].0 == id,
        forall|k: int| i < k < s.len() ==> s[k].0 != id,
    ensures
        entries_map(s).contains_key(id),
        entries_map(s)[id] == s[i].1,
    decreases s.len(),
{
    if i < s.len() - 1 {
        lemma_entries_map_last(s.drop_last(), id, i);
    }
}

proof fn lemma_entries_map_absent(s: Seq<(Seq<char>, AgentSpecV)>, id: Seq<char>)
    requires
        forall|k: int| 0 <= k < s.len() ==> s[k].0 != id,
    ensures
        !entries_map(s).contains_key(id),
    decreases s.len(),
{
    if s.len() > 0 {
        lemma_entries_map_absent(s.drop_last(), id);
    }
}

impl AgentMap {
    /// A map with no agent.
    pub fn new() -> (r: AgentMap)
        ensures
            r@ == Map::<Seq<char>, AgentSpecV>::empty(),
    {
        let r = AgentMap { entries: Vec::new() };
        assert(entry_views(r.entries@) =~= Seq::empty());
        r
    }

    /// Whether the map holds no agent.
    pub fn is_empty(&self) -> (r: bool)
        ensures
            r == (self@ == Map::<Seq<char>, AgentSpecV>::empty()),
    {
        let ghost s = entry_views(self.entries@);
        if self.entries.len() == 0 {
            assert(s =~= Seq::empty());
            true
        } else {
            proof {
                let k = s.last().0;
                assert(entries_map(s).contains_key(k));
                assert(!Map::<Seq<char>, AgentSpecV>::empty().contains_key(k));
            }
            false
        }
    }

    /// The agent with id `id`, if the map holds one.
    pub fn get(&self, id: &str) -> (r: Option<&AgentSpec>)
        ensures
            match r {
                Some(a) => self@.contains_key(id@) && self@[id@] == a@,
                None => !self@.contains_key(id@),
            },
    {
        let ghost s = entry_views(self.entries@);
        let mut i: usize = self.entries.len();
        while i > 0
            invariant
                s == entry_views(self.entries@),
                i <= self.entries.len(),
                forall|k: int| i <= k < self.entries.len() ==> s[k].0 != id@,
            decreases i,
        {
            let j = i - 1;
            if str_eq(self.entries[j].0.as_str(), id) {
                proof {
                    lemma_entries_map_last(s, id@, j as int);
                }
                return Some(&self.entries[j].1);
            }
            i = j;
        }
        proof {
            lemma_entries_map_absent(s, id@);
        }
        None
    }

    /// Adds the entries of a layer over the map: each id the layer names now
    /// maps to the layer's agent, all other ids keep theirs.
    pub fn extend(&mut self, layer: Vec<(String, AgentSpec)>)
        ensures
            final(self)@ == old(self)@.union_prefer_right(entries_map(entry_views(layer@))),
    {
        let ghost before = entry_views(self.entries@);
        let ghost added = entry_views(layer@);
        let mut layer = layer;
        self.entries.append(&mut layer);
        proof {
            assert(entry_views(self.entries@) =~= before + added);
            lemma_entries_map_append(before, added);
        }
    }
}

/// The path of the agents file under a directory, as `root.join(".abd").join("agents.yaml")`.
pub open spec fn agent_path_spec(root: Seq<char>) -> Seq<char> {
    if root.len() == 0 {
        ".abd/agents.yaml"@
    } else if root.last() == '/' {
        root + ".abd/agents.yaml"@
    } else {
        root + "/.abd/agents.yaml"@
    }
}

/// The path of the agents file under the directory `root`.
pub fn agent_path(root: &str) -> (r: String)
    ensures
        r@ == agent_path_spec(root@),
{
    let n = root.unicode_len();
    if n == 0 {
        ".abd/agents.yaml".to_owned()
    } else if root.get_char(n - 1) == '/' {
        concat(root, ".abd/agents.yaml")
    } else {
        concat(root, "/.abd/agents.yaml")
    }
}

/// `base.join(rel)` for a relative `rel`: the two joined by one `/`, or `rel`
/// alone when `base` is empty.
pub open spec fn join_spec(base: Seq<char>, rel: Seq<char>) -> Seq<char> {
    if base.len() == 0 {
        rel
    } else if base.last() == '/' {
        base + rel
    } else {
        base + seq!['/'] + rel
    }
}

/// `base.join(rel)` for a relative `rel`.
pub fn join_path(base: &str, rel: &str) -> (r: String)
    ensures
        r@ == join_spec(base@, rel@),
{
    let n = base.unicode_len();
    if n == 0 {
        rel.to_owned()
    } else if base.get_char(n - 1) == '/' {
        concat(base, rel)
    } else {
        proof {
            reveal_strlit("/");
        }
        assert("/"@ =~= seq!['/']);
        concat3(base, "/", rel)
    }
}

/// The directory an agent turn runs in: the one given when it is absolute,
/// the one given taken from `current_dir` when it is relative, and
/// `current_dir` itself when none is given.
pub open spec fn resolve_cwd_spec(cwd: Option<Seq<char>>, current_dir: Seq<char>) -> Seq<char> {
    match cwd {
        None => current_dir,
        Some(p) => if p.len() > 0 && p[0] == '/' {
            p
        } else {
            join_spec(current_dir, p)
        },
    }
}

/// The directory an agent turn runs in.
pub fn resolve_cwd(cwd: Option<&str>, current_dir: &str) -> (r: String)
    ensures
        r@ == resolve_cwd_spec(
            match cwd {
                Some(p) => Some(p@),
                None => None,
            },
            current_dir@,
        ),
{
    match cwd {
        None => current_dir.to_owned(),
        Some(p) => {
            if p.unicode_len() > 0 && p.get_char(0) == '/' {
                p.to_owned()
            } else {
                join_path(current_dir, p)
            }
        },
    }
}

/// Loading a file changes nothing but the commands: the agents keep their
/// ids and order, each command is trimmed of surrounding whitespace, and each
/// agent's arguments and environment stay exactly as parsed.
pub proof fn lemma_loading_keeps_args_and_env(es: Seq<(Seq<char>, AgentSpecV)>)
    ensures
        trim_commands(es).len() == es.len(),
        forall|i: int|
            0 <= i < es.len() ==> {
                let loaded = #[trigger] trim_commands(es)[i];
                &&& loaded.0 == es[i].0
                &&& loaded.1.command == trim(es[i].1.command)
                &&& loaded.1.args == es[i].1.args
                &&& loaded.1.env == es[i].1.env
            },
{
}

/// The agents of one parsed file with commands trimmed, or the first agent
/// (in the file's order) whose command is empty.
pub fn load_file(path: &str, entries: Vec<(String, AgentSpec)>) -> (r: Result<
    Vec<(String, AgentSpec)>,
    ConfigError,
>)
    ensures
        match r {
            Ok(v) => first_blank_id(entry_views(entries@)) is None && entry_views(v@)
                == trim_commands(entry_views(entries@)) && entry_views(v@).len() == entries@.len()
                && forall|i: int|
                0 <= i < entries@.len() ==> {
                    let loaded = #[trigger] entry_views(v@)[i];
                    let parsed = entry_views(entries@)[i];
                    &&& loaded.0 == parsed.0
                    &&& loaded.1.command == trim(parsed.1.command)
                    &&& loaded.1.args == parsed.1.args
                    &&& loaded.1.env == parsed.1.env
                },
            Err(e) => first_blank_id(entry_views(entries@)) matches Some(id) && e@
                == ConfigErrorV::EmptyCommand { path: path@, id },
        },
{
    let ghost all = entry_views(entries@);
    let mut rest = entries;
    let mut out: Vec<(String, AgentSpec)> = Vec::new();
    let ghost mut done: int = 0;
    while rest.len() > 0
        invariant
            0 <= done <= all.len(),
            all == entry_views(entries@),
            entry_views(rest@) == all.subrange(done, all.len() as int),
            entry_views(out@) == trim_commands(all.subrange(0, done)),
            first_blank_id(all) == first_blank_id(all.subrange(done, all.len() as int)),
        decreases rest.len(),
    {
        let ghost tail = all.subrange(done, all.len() as int);
        let (id, spec) = rest.remove(0);
        assert(tail[0] == (id@, spec@));
        if is_blank(spec.command.as_str()) {
            assert(first_blank_id(tail) == Some(tail[0].0));
            return Err(ConfigError::EmptyCommand { path: path.to_owned(), id });
        }
        let trimmed = AgentSpec {
            command: trim_str(spec.command.as_str()),
            args: spec.args,
            env: spec.env,
        };
        out.push((id, trimmed));
        proof {
            assert(tail.drop_first() =~= all.subrange(done + 1, all.len() as int));
            assert(entry_views(rest@) =~= all.subrange(done + 1, all.len() as int));
            assert(trim_commands(all.subrange(0, done + 1)) =~= trim_commands(
                all.subrange(0, done),
            ).push(trim_commands(all.subrange(0, done + 1))[done]));
            assert(entry_views(out@) =~= trim_commands(all.subrange(0, done + 1)));
            done = done + 1;
        }
    }
    proof {
        assert(all.subrange(done, all.len() as int).len() == 0);
        assert(all.subrange(0, done) =~= all);
        lemma_loading_keeps_args_and_env(all);
    }
    Ok(out)
}

/// Adds the agents of one file over `into`; a missing file is an error only
/// when it is `required`.
pub fn merge_file(into: &mut AgentMap, src: AgentSource, required: bool) -> (r: Result<
    (),
    ConfigError,
>)
    ensures
        match layer_outcome(src@, required) {
            Ok(layer) => r is Ok && final(into)@ == old(into)@.union_prefer_right(
                entries_map(layer),
            ),
            Err(e) => r matches Err(x) && x@ == e && final(into)@ == old(into)@,
        },
{
    let AgentSource { path, file } = src;
    match file {
        AgentFile::Absent => {
            if required {
                Err(ConfigError::NotFound(path))
            } else {
                assert(entries_map(Seq::<(Seq<char>, AgentSpecV)>::empty()) =~= Map::empty());
                assert(into@.union_prefer_right(Map::empty()) =~= into@);
                Ok(())
            }
        },
        AgentFile::Unreadable => Err(ConfigError::Unreadable(path)),
        AgentFile::Malformed(detail) => Err(ConfigError::Invalid { path, detail }),
        AgentFile::Parsed(entries) => {
            match load_file(path.as_str(), entries) {
                Ok(layer) => {
                    into.extend(layer);
                    Ok(())
                },
                Err(e) => Err(e),
            }
        },
    }
}

/// The agents of the home, workspace and explicit agents files, each later
/// file replacing the agents of earlier ones with the same id. The explicit
/// file must exist; the other two may be missing.
pub fn load_agents(
    home: Option<AgentSource>,
    workspace: AgentSource,
    extra: Option<AgentSource>,
) -> (r: Result<AgentMap, ConfigError>)
    ensures
        match load_outcome(opt_source_view(home), workspace@, opt_source_view(extra)) {
            Ok(m) => r matches Ok(a) && a@ == m,
            Err(e) => r matches Err(x) && x@ == e,
        },
{
    let ghost hv = opt_source_view(home);
    let ghost wv = workspace@;
    let ghost xv = opt_source_view(extra);
    let mut agents = AgentMap::new();
    match home {
        Some(h) => {
            match merge_file(&mut agents, h, false) {
                Ok(()) => {},
                Err(e) => return Err(e),
            }
        },
        None => {},
    }
    match merge_file(&mut agents, workspace, false) {
        Ok(()) => {},
        Err(e) => return Err(e),
    }
    match extra {
        Some(x) => {
            match merge_file(&mut agents, x, true) {
                Ok(()) => {},
                Err(e) => return Err(e),
            }
        },
        None => {},
    }
    proof {
        let h = opt_layer_outcome(hv, false)->Ok_0;
        let w = layer_outcome(wv, false)->Ok_0;
        let x = opt_layer_outcome(xv, true)->Ok_0;
        assert(entries_map(Seq::<(Seq<char>, AgentSpecV)>::empty()) =~= Map::empty());
        assert(Map::<Seq<char>, AgentSpecV>::empty().union_prefer_right(entries_map(h))
            =~= entries_map(h));
        assert(agents@ =~= entries_map(h).union_prefer_right(entries_map(w)).union_prefer_right(
            entries_map(x),
        ));
        lemma_entries_map_append(h, w);
        lemma_entries_map_append(h + w, x);
    }
    Ok(agents)
}

/// The agent with id `id`, or an error naming the unknown id.
pub fn get_agent<'a>(agents: &'a AgentMap, id: &str) -> (r: Result<&'a AgentSpec, ConfigError>)
    ensures
        match r {
            Ok(a) => agents@.contains_key(id@) && agents@[id@] == a@,
            Err(e) => !agents@.contains_key(id@) && e@ == ConfigErrorV::UnknownAgent(id@),
        },
{
    match agents.get(id) {
        Some(a) => Ok(a),
        None => Err(ConfigError::UnknownAgent(id.to_owned())),
    }
}

} // verus!
