//! The tunnel protocol: ALPN and handshake bytes, how a client publishes the
//! tools of its remotes under prefixed names, and how it routes a call back.

use vstd::prelude::*;
use vstd::string::*;
use crate::text::str_eq;

verus! {

/// ALPN protocol name of the tunnel: `tool-tunnel/stdio/0`.
pub open spec fn alpn_spec() -> Seq<u8> {
    seq![116u8, 111, 111, 108, 45, 116, 117, 110, 110, 101, 108, 47, 115, 116, 100, 105, 111, 47, 48]
}

/// Bytes the dialling side sends first on a new stream: `tool-tunnel\n`.
pub open spec fn handshake_spec() -> Seq<u8> {
    seq![116u8, 111, 111, 108, 45, 116, 117, 110, 110, 101, 108, 10]
}

/// The ALPN protocol name of the tunnel.
pub fn alpn() -> (r: Vec<u8>)
    ensures
        r@ == alpn_spec(),
{
    let r = vec![116u8, 111, 111, 108, 45, 116, 117, 110, 110, 101, 108, 47, 115, 116, 100, 105, 111, 47, 48];
    assert(r@ =~= alpn_spec());
    r
}

/// The handshake the dialling side sends.
pub fn handshake() -> (r: Vec<u8>)
    ensures
        r@ == handshake_spec(),
{
    let r = vec![116u8, 111, 111, 108, 45, 116, 117, 110, 110, 101, 108, 10];
    assert(r@ =~= handshake_spec());
    r
}

/// Whether the bytes read from a new stream are the tunnel handshake.
pub fn handshake_matches(received: &[u8]) -> (r: bool)
    ensures
        r == (received@ == handshake_spec()),
{
    let expected = handshake();
    let n = received.len();
    if n != expected.len() {
        return false;
    }
    let mut i: usize = 0;
    while i < n
        invariant
            n == received@.len(),
            n == expected@.len(),
            expected@ == handshake_spec(),
            i <= n,
            forall|j: int| 0 <= j < i ==> received@[j] == expected@[j],
        decreases n - i,
    {
        if received[i] != expected[i] {
            return false;
        }
        i = i + 1;
    }
    assert(received@ =~= handshake_spec());
    true
}

/// Position of the first `__` in `s` at or after `from`.
pub open spec fn delimiter_from(s: Seq<char>, from: int) -> Option<int>
    decreases s.len() - from,
{
    if from < 0 || from + 1 >= s.len() {
        None
    } else if s[from] == '_' && s[from + 1] == '_' {
        Some(from)
    } else {
        delimiter_from(s, from + 1)
    }
}

/// A tool name cut at its first `__`: the alias before it and the remote's
/// own tool name after it.
pub open spec fn spec_split_tool_name(s: Seq<char>) -> Option<(Seq<char>, Seq<char>)> {
    match delimiter_from(s, 0) {
        Some(i) => Some((s.take(i), s.skip(i + 2))),
        None => None,
    }
}

/// Cut a published tool name at its first `__` into alias and tool name.
pub fn split_tool_name(name: &str) -> (r: Option<(&str, &str)>)
    ensures
        match spec_split_tool_name(name@) {
            Some((a, t)) => r matches Some((x, y)) && x@ == a && y@ == t,
            None => r is None,
        },
{
    let n = name.unicode_len();
    let mut i: usize = 0;
    while i < n
        invariant
            n == name@.len(),
            i <= n,
            delimiter_from(name@, 0) == delimiter_from(name@, i as int),
        decreases n - i,
    {
        if i + 1 < n && name.get_char(i) == '_' && name.get_char(i + 1) == '_' {
            proof {
                assert(name@.take(i as int) =~= name@.subrange(0, i as int));
                assert(name@.skip(i + 2) =~= name@.subrange(i + 2, n as int));
            }
            return Some((name.substring_char(0, i), name.substring_char(i + 2, n)));
        }
        i = i + 1;
    }
    None
}

/// The names under which a tool is listed: its name and optional title.
#[derive(Debug)]
pub struct ToolLabel {
    pub name: String,
    pub title: Option<String>,
}

/// Plain form of [`ToolLabel`].
pub struct ToolLabelView {
    pub name: Seq<char>,
    pub title: Option<Seq<char>>,
}

impl View for ToolLabel {
    type V = ToolLabelView;

    open spec fn view(&self) -> ToolLabelView {
        ToolLabelView { name: self.name@, title: crate::paths::opt_view(self.title) }
    }
}

/// The name under which a client publishes tool `tool` of remote `alias`.
pub open spec fn prefixed_name(alias: Seq<char>, tool: Seq<char>) -> Seq<char> {
    alias + "__"@ + tool
}

/// The label a client publishes for a remote's tool: the name prefixed with
/// the alias and `__`; a missing title becomes `<alias>: <tool name>`.
pub open spec fn spec_prefix_tool(alias: Seq<char>, tool: ToolLabelView) -> ToolLabelView {
    ToolLabelView {
        name: prefixed_name(alias, tool.name),
        title: match tool.title {
            Some(t) => Some(t),
            None => Some(alias + ": "@ + tool.name),
        },
    }
}

/// Relabel a remote's tool for publication under the remote's alias.
pub fn prefix_tool(alias: &str, tool: ToolLabel) -> (r: ToolLabel)
    ensures
        r@ == spec_prefix_tool(alias@, tool@),
{
    let mut name = String::from_str(alias);
    name.append("__");
    name.append(tool.name.as_str());
    let title = match tool.title {
        Some(t) => Some(t),
        None => {
            let mut t = String::from_str(alias);
            t.append(": ");
            t.append(tool.name.as_str());
            Some(t)
        },
    };
    ToolLabel { name, title }
}

/// Why a tool call cannot be routed to a remote.
#[derive(Debug, Clone, Copy, PartialEq, Eq, Structural)]
pub enum RouteError {
    /// The tool name has no `__` delimiter.
    NotPrefixed,
    /// No connected remote carries the alias before the delimiter.
    UnknownAlias,
}

/// The first position in `aliases` that holds `a`.
pub open spec fn first_alias_index(aliases: Seq<Seq<char>>, a: Seq<char>) -> Option<int>
    decreases aliases.len(),
{
    if aliases.len() == 0 {
        None
    } else if aliases.last() == a && first_alias_index(aliases.drop_last(), a) is None {
        Some(aliases.len() - 1)
    } else {
        first_alias_index(aliases.drop_last(), a)
    }
}

/// Where a call of the published tool `name` goes: the position of the
/// remote among the connected `aliases` and the remote's own tool name.
pub open spec fn spec_route(name: Seq<char>, aliases: Seq<Seq<char>>) -> Result<(int, Seq<char>), RouteError> {
    match spec_split_tool_name(name) {
        None => Err(RouteError::NotPrefixed),
        Some((a, t)) => match first_alias_index(aliases, a) {
            Some(i) => Ok((i, t)),
            None => Err(RouteError::UnknownAlias),
        },
    }
}

proof fn lemma_first_alias_index_step(aliases: Seq<Seq<char>>, a: Seq<char>, i: int)
    requires
        0 <= i < aliases.len(),
        first_alias_index(aliases.take(i), a) is None,
    ensures
        aliases[i] == a ==> first_alias_index(aliases.take(i + 1), a) == Some(i),
        aliases[i] != a ==> first_alias_index(aliases.take(i + 1), a) is None,
{
    assert(aliases.take(i + 1).drop_last() =~= aliases.take(i));
}

proof fn lemma_first_alias_index_extend(aliases: Seq<Seq<char>>, a: Seq<char>, k: int)
    requires
        0 <= k <= aliases.len(),
        first_alias_index(aliases.take(k), a) is Some,
    ensures
        first_alias_index(aliases, a) == first_alias_index(aliases.take(k), a),
    decreases aliases.len() - k,
{
    if k == aliases.len() {
        assert(aliases.take(k) =~= aliases);
    } else {
        assert(aliases.take(k + 1).drop_last() =~= aliases.take(k));
        lemma_first_alias_index_extend(aliases, a, k + 1);
    }
}

/// Route a call of the published tool `name` to a connected remote.
pub fn route_tool_call(name: &str, aliases: &Vec<String>) -> (r: Result<(usize, String), RouteError>)
    ensures
        match spec_route(name@, aliases@.map_values(|s: String| s@)) {
            Ok((i, t)) => r matches Ok((j, u)) && j == i && u@ == t,
            Err(e) => r == Err::<(usize, String), RouteError>(e),
        },
{
    let ghost av = aliases@.map_values(|s: String| s@);
    match split_tool_name(name) {
        None => Err(RouteError::NotPrefixed),
        Some((alias, tool)) => {
            let n = aliases.len();
            let mut i: usize = 0;
            while i < n
                invariant
                    n == aliases@.len(),
                    av == aliases@.map_values(|s: String| s@),
                    spec_split_tool_name(name@) == Some((alias@, tool@)),
                    i <= n,
                    first_alias_index(av.take(i as int), alias@) is None,
                decreases n - i,
            {
                proof {
                    lemma_first_alias_index_step(av, alias@, i as int);
                    assert(av[i as int] == aliases@[i as int]@);
                }
                if str_eq(aliases[i].as_str(), alias) {
                    proof {
                        lemma_first_alias_index_extend(av, alias@, i + 1);
                    }
                    return Ok((i, String::from_str(tool)));
                }
                i = i + 1;
            }
            proof {
                assert(av.take(n as int) =~= av);
            }
            Err(RouteError::UnknownAlias)
        },
    }
}

/// What the first position of an alias is: it holds the alias, and no
/// earlier position does; without one, no position holds it.
pub proof fn lemma_first_alias_index_facts(aliases: Seq<Seq<char>>, a: Seq<char>)
    ensures
        match first_alias_index(aliases, a) {
            Some(i) => 0 <= i < aliases.len() && aliases[i] == a && forall|j: int|
                0 <= j < i ==> #[trigger] aliases[j] != a,
            None => forall|j: int| 0 <= j < aliases.len() ==> #[trigger] aliases[j] != a,
        },
    decreases aliases.len(),
{
    if aliases.len() > 0 {
        let d = aliases.drop_last();
        lemma_first_alias_index_facts(d, a);
        assert forall|j: int| 0 <= j < d.len() implies #[trigger] d[j] == aliases[j] by {}
        match first_alias_index(d, a) {
            Some(i) => {
                assert(first_alias_index(aliases, a) == Some(i));
                assert forall|j: int| 0 <= j < i implies #[trigger] aliases[j] != a by {
                    assert(d[j] != a);
                }
            },
            None => {
                if aliases.last() == a {
                    assert(first_alias_index(aliases, a) == Some(aliases.len() - 1));
                    assert forall|j: int| 0 <= j < aliases.len() - 1 implies #[trigger] aliases[j]
                        != a by {
                        assert(d[j] != a);
                    }
                } else {
                    assert(first_alias_index(aliases, a) is None);
                    assert forall|j: int| 0 <= j < aliases.len() implies #[trigger] aliases[j]
                        != a by {
                        if j < d.len() {
                            assert(d[j] != a);
                        }
                    }
                }
            },
        }
    }
}

/// Each published label is named after the alias of the remote it came from
/// and its name there.
pub open spec fn catalog_consistent(
    aliases: Seq<Seq<char>>,
    labels: Seq<ToolLabelView>,
    origins: Seq<(int, Seq<char>)>,
) -> bool {
    &&& labels.len() == origins.len()
    &&& forall|j: int|
        0 <= j < origins.len() ==> {
            let (r, t) = #[trigger] origins[j];
            &&& 0 <= r < aliases.len()
            &&& labels[j].name == prefixed_name(aliases[r], t)
        }
}

/// The tools a client publishes and the remotes they came from: per
/// connected remote, in connection order, its alias and a handle `H` to it
/// (its session), and the relabelled tools.
pub struct ToolCatalog<H> {
    aliases: Vec<String>,
    handles: Vec<H>,
    labels: Vec<ToolLabel>,
    origins: Ghost<Seq<(int, Seq<char>)>>,
}

impl<H> ToolCatalog<H> {
    /// Handles of the connected remotes, one per alias, in the same order.
    pub closed spec fn handle_list(&self) -> Seq<H> {
        self.handles@
    }

    /// Aliases of the connected remotes.
    pub closed spec fn alias_list(&self) -> Seq<Seq<char>> {
        self.aliases@.map_values(|s: String| s@)
    }

    /// Published tool labels.
    pub closed spec fn label_list(&self) -> Seq<ToolLabelView> {
        self.labels@.map_values(|t: ToolLabel| t@)
    }

    /// For each published tool: the position of its remote and its name there.
    pub closed spec fn origin_list(&self) -> Seq<(int, Seq<char>)> {
        self.origins@
    }

    #[verifier::type_invariant]
    closed spec fn consistent(&self) -> bool {
        &&& catalog_consistent(self.alias_list(), self.label_list(), self.origin_list())
        &&& self.handles@.len() == self.aliases@.len()
    }

    /// A catalog with no remote.
    pub fn new() -> (c: Self)
        ensures
            c.alias_list() == Seq::<Seq<char>>::empty(),
            c.label_list() == Seq::<ToolLabelView>::empty(),
            c.origin_list() == Seq::<(int, Seq<char>)>::empty(),
            c.handle_list() == Seq::<H>::empty(),
    {
        let c = ToolCatalog {
            aliases: Vec::new(),
            handles: Vec::new(),
            labels: Vec::new(),
            origins: Ghost(Seq::empty()),
        };
        proof {
            assert(c.alias_list() =~= Seq::<Seq<char>>::empty());
            assert(c.label_list() =~= Seq::<ToolLabelView>::empty());
        }
        c
    }

    /// Connect one more remote: its alias and handle are added and its tools
    /// are published under prefixed labels, in the order given.
    pub fn add_remote(&mut self, alias: &str, handle: H, tools: Vec<ToolLabel>)
        ensures
            final(self).alias_list() == old(self).alias_list().push(alias@),
            final(self).handle_list() == old(self).handle_list().push(handle),
            final(self).label_list() == old(self).label_list() + tools@.map_values(
                |t: ToolLabel| spec_prefix_tool(alias@, t@),
            ),
            final(self).origin_list() == old(self).origin_list() + tools@.map_values(
                |t: ToolLabel| (old(self).alias_list().len() as int, t.name@),
            ),
    {
        let mut taken = ToolCatalog::<H>::new();
        std::mem::swap(self, &mut taken);
        proof {
            use_type_invariant(&taken);
        }
        let ToolCatalog { aliases, handles, labels, origins } = taken;
        let mut handles = handles;
        handles.push(handle);
        let mut aliases = aliases;
        let mut labels = labels;
        let ghost old_aliases = aliases@;
        let ghost old_labels = labels@;
        let ghost old_origins = origins@;
        let r = aliases.len();
        aliases.push(String::from_str(alias));
        let ghost mut new_origins = old_origins;
        let ghost all = tools@;
        let mut rest = tools;
        let n = rest.len();
        let mut i: usize = 0;
        while rest.len() > 0
            invariant
                rest@ == all.skip(i as int),
                rest@.len() + i == all.len(),
                all.len() == n,
                i <= all.len(),
                r == old_aliases.len(),
                aliases@.len() == old_aliases.len() + 1,
                forall|q: int| 0 <= q < old_aliases.len() ==> #[trigger] aliases@[q] == old_aliases[q],
                aliases@[r as int]@ == alias@,
                old_labels.len() == old_origins.len(),
                forall|j: int|
                    0 <= j < old_origins.len() ==> {
                        let (q, t) = #[trigger] old_origins[j];
                        &&& 0 <= q < old_aliases.len()
                        &&& old_labels[j]@.name == prefixed_name(old_aliases[q]@, t)
                    },
                labels@.map_values(|t: ToolLabel| t@) == old_labels.map_values(|t: ToolLabel| t@)
                    + all.take(i as int).map_values(|t: ToolLabel| spec_prefix_tool(alias@, t@)),
                new_origins == old_origins + all.take(i as int).map_values(
                    |t: ToolLabel| (r as int, t.name@),
                ),
            decreases rest@.len(),
        {
            let t = rest.remove(0);
            proof {
                assert(t == all[i as int]);
                assert(rest@ =~= all.skip(i + 1));
                assert(all.take(i + 1) =~= all.take(i as int).push(t));
                new_origins = new_origins.push((r as int, t.name@));
            }
            let label = prefix_tool(alias, t);
            let ghost prev = labels@;
            labels.push(label);
            proof {
                let f = |t: ToolLabel| spec_prefix_tool(alias@, t@);
                assert(all.take(i + 1).map_values(f) =~= all.take(i as int).map_values(f).push(
                    spec_prefix_tool(alias@, all[i as int]@),
                ));
                assert(labels@.map_values(|t: ToolLabel| t@) =~= prev.map_values(|t: ToolLabel| t@).push(
                    spec_prefix_tool(alias@, all[i as int]@),
                ));
                assert(labels@.map_values(|t: ToolLabel| t@) =~= old_labels.map_values(
                    |t: ToolLabel| t@,
                ) + all.take(i + 1).map_values(|t: ToolLabel| spec_prefix_tool(alias@, t@)));
                assert(new_origins =~= old_origins + all.take(i + 1).map_values(
                    |t: ToolLabel| (r as int, t.name@),
                ));
            }
            i = i + 1;
        }
        proof {
            assert(all.take(i as int) =~= all);
            let lv = labels@.map_values(|t: ToolLabel| t@);
            let av = aliases@.map_values(|s: String| s@);
            assert forall|j: int| 0 <= j < new_origins.len() implies {
                let (q, t) = #[trigger] new_origins[j];
                &&& 0 <= q < av.len()
                &&& lv[j].name == prefixed_name(av[q], t)
            } by {
                assert(lv[j] == labels@[j]@);
                assert(av[new_origins[j].0] == aliases@[new_origins[j].0]@);
                if j < old_origins.len() {
                    assert(lv[j] == old_labels[j]@);
                    assert(aliases@[new_origins[j].0] == old_aliases[new_origins[j].0]);
                } else {
                    let k = j - old_origins.len();
                    assert(lv[j] == spec_prefix_tool(alias@, all[k]@));
                    assert(new_origins[j] == (r as int, all[k].name@));
                }
            }
        }
        *self = ToolCatalog { aliases, handles, labels, origins: Ghost(new_origins) };
    }

    /// Record the outcome of dialling the import `alias`: its session and
    /// tools when it connected (the remote is added as by `add_remote`),
    /// `None` when it could not be reached (the import is skipped and nothing
    /// changes).
    pub fn record_import(&mut self, alias: &str, connected: Option<(H, Vec<ToolLabel>)>)
        ensures
            match connected {
                Some((handle, tools)) => {
                    &&& final(self).alias_list() == old(self).alias_list().push(alias@)
                    &&& final(self).handle_list() == old(self).handle_list().push(handle)
                    &&& final(self).label_list() == old(self).label_list() + tools@.map_values(
                        |t: ToolLabel| spec_prefix_tool(alias@, t@),
                    )
                    &&& final(self).origin_list() == old(self).origin_list() + tools@.map_values(
                        |t: ToolLabel| (old(self).alias_list().len() as int, t.name@),
                    )
                },
                None => {
                    &&& final(self).alias_list() == old(self).alias_list()
                    &&& final(self).handle_list() == old(self).handle_list()
                    &&& final(self).label_list() == old(self).label_list()
                    &&& final(self).origin_list() == old(self).origin_list()
                },
            },
    {
        match connected {
            Some((handle, tools)) => self.add_remote(alias, handle, tools),
            None => {},
        }
    }

    /// Aliases of the connected remotes, in connection order.
    pub fn aliases(&self) -> (r: &Vec<String>)
        ensures
            r@.map_values(|s: String| s@) == self.alias_list(),
            catalog_consistent(self.alias_list(), self.label_list(), self.origin_list()),
    {
        proof {
            use_type_invariant(self);
        }
        &self.aliases
    }

    /// The published tool labels.
    pub fn labels(&self) -> (r: &Vec<ToolLabel>)
        ensures
            r@.map_values(|t: ToolLabel| t@) == self.label_list(),
            catalog_consistent(self.alias_list(), self.label_list(), self.origin_list()),
    {
        proof {
            use_type_invariant(self);
        }
        &self.labels
    }

    /// Route a call of the published tool `name` to a connected remote: the
    /// remote's handle and the tool's name there.
    pub fn route(&self, name: &str) -> (r: Result<(&H, String), RouteError>)
        ensures
            match spec_route(name@, self.alias_list()) {
                Ok((i, t)) => r matches Ok((h, u)) && *h == self.handle_list()[i] && u@ == t,
                Err(e) => r matches Err(f) && f == e,
            },
    {
        proof {
            use_type_invariant(self);
        }
        match route_tool_call(name, &self.aliases) {
            Ok((i, tool)) => {
                proof {
                    let a = spec_split_tool_name(name@).unwrap().0;
                    lemma_first_alias_index_facts(self.alias_list(), a);
                }
                Ok((&self.handles[i], tool))
            },
            Err(e) => Err(e),
        }
    }
}

/// Why an incoming connection is refused.
#[derive(Debug, Clone, Copy, PartialEq, Eq, Structural)]
pub enum Refusal {
    /// The dialling endpoint is not on the export's allowlist.
    NotAllowlisted,
    /// The first bytes on the stream are not the tunnel handshake.
    BadHandshake,
    /// An event came in a state that does not expect it.
    OutOfOrder,
}

/// Where an incoming connection on an export stands.
#[derive(Debug, Clone, Copy, PartialEq, Eq, Structural)]
pub enum Admission {
    /// Connected; the dialling endpoint is not known yet.
    Connected,
    /// The endpoint is allowlisted; the handshake is awaited.
    AwaitingHandshake,
    /// Admitted: the MCP session may be served on the stream.
    Serve,
    /// Refused; the connection is dropped.
    Refused(Refusal),
}

/// What happens on an incoming connection.
#[derive(Debug)]
pub enum AdmissionEvent {
    /// The connection's remote endpoint ID became known.
    PeerIdentified(String),
    /// The first bytes of the stream were read.
    HandshakeRead(Vec<u8>),
}

/// Plain form of [`AdmissionEvent`].
pub enum AdmissionEventView {
    PeerIdentified(Seq<char>),
    HandshakeRead(Seq<u8>),
}

impl View for AdmissionEvent {
    type V = AdmissionEventView;

    open spec fn view(&self) -> AdmissionEventView {
        match self {
            AdmissionEvent::PeerIdentified(id) => AdmissionEventView::PeerIdentified(id@),
            AdmissionEvent::HandshakeRead(b) => AdmissionEventView::HandshakeRead(b@),
        }
    }
}

/// The next state of a connection, on an export whose allowlist is `allowed`:
/// an identified peer is admitted to the handshake only when allowlisted, and
/// the session is served only after the exact handshake.
pub open spec fn spec_next_admission(
    allowed: Seq<Seq<char>>,
    state: Admission,
    event: AdmissionEventView,
) -> Admission {
    match (state, event) {
        (Admission::Connected, AdmissionEventView::PeerIdentified(id)) => if allowed.contains(id) {
            Admission::AwaitingHandshake
        } else {
            Admission::Refused(Refusal::NotAllowlisted)
        },
        (Admission::AwaitingHandshake, AdmissionEventView::HandshakeRead(b)) => if b
            == handshake_spec() {
            Admission::Serve
        } else {
            Admission::Refused(Refusal::BadHandshake)
        },
        (Admission::Refused(r), _) => Admission::Refused(r),
        _ => Admission::Refused(Refusal::OutOfOrder),
    }
}

/// Step an incoming connection on an export whose allowlist is `allowed`.
pub fn next_admission(allowed: &Vec<String>, state: Admission, event: &AdmissionEvent) -> (r: Admission)
    ensures
        r == spec_next_admission(allowed@.map_values(|s: String| s@), state, event@),
{
    match (state, event) {
        (Admission::Connected, AdmissionEvent::PeerIdentified(id)) => {
            if crate::keys::is_allowlisted(allowed, id.as_str()) {
                Admission::AwaitingHandshake
            } else {
                Admission::Refused(Refusal::NotAllowlisted)
            }
        },
        (Admission::AwaitingHandshake, AdmissionEvent::HandshakeRead(b)) => {
            if handshake_matches(b.as_slice()) {
                Admission::Serve
            } else {
                Admission::Refused(Refusal::BadHandshake)
            }
        },
        (Admission::Refused(r), _) => Admission::Refused(r),
        _ => Admission::Refused(Refusal::OutOfOrder),
    }
}

} // verus!
