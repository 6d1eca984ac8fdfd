//! Properties that hold across the functions of the library.

use vstd::prelude::*;
use crate::config::{Config, alias_problem, has_double_underscore, strings_view};
use crate::paths::IdentityRole;
use crate::keys::{
    endpoint_id_fault,
    endpoint_id_text,
    hex_digit,
    hex_lower_text,
    identity_file_text,
    is_key_hex,
};
use crate::text::{is_white_space, trim_end, trim_start, trimmed};
use crate::names::{as_map, lookup, names_sorted};
use crate::paths::{is_absolute, path_join, spec_identity_path};
use crate::protocol::{
    Admission,
    AdmissionEventView,
    handshake_spec,
    spec_next_admission,
    ToolLabelView,
    catalog_consistent,
    delimiter_from,
    first_alias_index,
    lemma_first_alias_index_facts,
    prefixed_name,
    spec_prefix_tool,
    spec_route,
    spec_split_tool_name,
};
use crate::validation::{
    IdentityProbes,
    allowlist_faults,
    comparables,
    config_fault,
    first_fault,
    import_faults,
    key_fault,
    key_faults,
    key_id,
    layout_faults,
    lemma_first_fault_none_all,
    probes_match,
    profile_count,
};

verus! {

/// An alias that survives being prefixed onto a tool name: no `__` in it,
/// and no `_` at its end.
pub open spec fn routable_alias(alias: Seq<char>) -> bool {
    &&& !has_double_underscore(alias)
    &&& (alias.len() == 0 || alias.last() != '_')
}

proof fn lemma_no_delimiter_before(s: Seq<char>, from: int, to: int)
    requires
        0 <= from <= to,
        to + 1 < s.len(),
        forall|j: int| from <= j < to ==> !(#[trigger] s[j] == '_' && s[j + 1] == '_'),
    ensures
        delimiter_from(s, from) == delimiter_from(s, to),
    decreases to - from,
{
    if from < to {
        lemma_no_delimiter_before(s, from + 1, to);
    }
}

/// Cutting a published tool name at its first `__` gives back the alias and
/// the remote's tool name, for every routable alias.
pub proof fn law_split_undoes_prefix(alias: Seq<char>, tool: Seq<char>)
    requires
        routable_alias(alias),
    ensures
        spec_split_tool_name(prefixed_name(alias, tool)) == Some((alias, tool)),
{
    reveal_strlit("__");
    let s = prefixed_name(alias, tool);
    let n = alias.len() as int;
    assert(s[n] == '_' && s[n + 1] == '_');
    assert forall|j: int| 0 <= j < n implies !(#[trigger] s[j] == '_' && s[j + 1] == '_') by {
        assert(s[j] == alias[j]);
        if j + 1 < n {
            assert(s[j + 1] == alias[j + 1]);
        } else {
            assert(alias.last() == alias[j]);
        }
    }
    lemma_no_delimiter_before(s, 0, n);
    assert(s.take(n) =~= alias);
    assert(s.skip(n + 2) =~= tool);
}

/// Tools of different remotes, or different tools of one remote, are
/// published under different names, for routable aliases.
pub proof fn law_published_names_distinct(a1: Seq<char>, t1: Seq<char>, a2: Seq<char>, t2: Seq<char>)
    requires
        routable_alias(a1),
        routable_alias(a2),
        a1 != a2 || t1 != t2,
    ensures
        prefixed_name(a1, t1) != prefixed_name(a2, t2),
{
    law_split_undoes_prefix(a1, t1);
    law_split_undoes_prefix(a2, t2);
}

/// A call of a tool that a client published for a connected remote goes to
/// that remote, under the remote's own tool name.
pub proof fn law_route_published_tool(
    alias: Seq<char>,
    tool: ToolLabelView,
    aliases: Seq<Seq<char>>,
    i: int,
)
    requires
        routable_alias(alias),
        first_alias_index(aliases, alias) == Some(i),
    ensures
        spec_route(spec_prefix_tool(alias, tool).name, aliases) == Ok::<(int, Seq<char>), crate::protocol::RouteError>(
            (i, tool.name),
        ),
{
    law_split_undoes_prefix(alias, tool.name);
}

proof fn lemma_join_relative(base: Seq<char>, part: Seq<char>)
    requires
        part.len() > 0,
        part[0] != '/',
        part.last() != '/',
    ensures
        path_join(base, part).len() > 0,
        path_join(base, part).last() == part.last(),
        path_join(base, part).len() >= part.len(),
        path_join(base, part).skip(path_join(base, part).len() - part.len()) == part,
{
    let j = path_join(base, part);
    assert(j.skip(j.len() - part.len()) =~= part);
}

/// Distinct profiles get distinct identity paths: a client profile and an
/// export profile of the same name, and two profiles of one role with
/// different names, as long as the names are relative paths.
pub proof fn law_identity_paths_distinct(
    base_dir: Seq<char>,
    role1: IdentityRole,
    name1: Seq<char>,
    role2: IdentityRole,
    name2: Seq<char>,
)
    requires
        !is_absolute(name1),
        !is_absolute(name2),
        role1 != role2 || name1 != name2,
    ensures
        spec_identity_path(base_dir, role1, name1) != spec_identity_path(base_dir, role2, name2),
{
    reveal_strlit("identities");
    reveal_strlit("clients");
    reveal_strlit("exports");
    let x = path_join(base_dir, "identities"@);
    lemma_join_relative(base_dir, "identities"@);
    let d1 = crate::paths::role_dir(role1);
    let d2 = crate::paths::role_dir(role2);
    let c1 = path_join(x, d1);
    let c2 = path_join(x, d2);
    assert(c1 == x + seq!['/'] + d1);
    assert(c2 == x + seq!['/'] + d2);
    lemma_join_relative(x, d1);
    lemma_join_relative(x, d2);
    let p1 = path_join(c1, name1);
    let p2 = path_join(c2, name2);
    assert(p1 == c1 + seq!['/'] + name1);
    assert(p2 == c2 + seq!['/'] + name2);
    let k = x.len() + 1int;
    if role1 != role2 {
        assert(p1[k] == d1[0]);
        assert(p2[k] == d2[0]);
    } else if p1 == p2 {
        assert(p1.skip(c1.len() + 1int) =~= name1);
        assert(p2.skip(c2.len() + 1int) =~= name2);
    }
}

/// Reading a name right after storing a value under it gives that value;
/// other names keep their values.
pub proof fn law_lookup_after_insert<V>(
    before: Seq<(Seq<char>, V)>,
    after: Seq<(Seq<char>, V)>,
    name: Seq<char>,
    value: V,
    other: Seq<char>,
)
    requires
        as_map(after) == as_map(before).insert(name, value),
    ensures
        lookup(after, name) == Some(value),
        other != name ==> lookup(after, other) == lookup(before, other),
{
    assert(as_map(after).dom().contains(name));
    assert(as_map(after)[name] == value);
    if other != name {
        assert(as_map(after).dom().contains(other) == as_map(before).dom().contains(other));
        if as_map(before).dom().contains(other) {
            assert(as_map(after)[other] == as_map(before)[other]);
        }
    }
}

/// A configuration that validates has well-formed aliases everywhere,
/// non-empty tickets and commands, only canonical endpoint IDs, an allowlist
/// on every export, and no identity path or identity key shared by two profiles.
pub proof fn law_valid_config(cfg: Config, p: IdentityProbes)
    requires
        probes_match(cfg, p),
        config_fault(cfg, p) is None,
    ensures
        forall|i: int|
            0 <= i < cfg.clients@.len() ==> {
                let (name, c) = #[trigger] cfg.clients@[i];
                &&& alias_problem(name) is None
                &&& forall|k: int|
                    0 <= k < c.imports@.len() ==> {
                        let (alias, import) = #[trigger] c.imports@[k];
                        &&& alias_problem(alias) is None
                        &&& import.ticket@.len() > 0
                        &&& endpoint_id_text(import.endpoint_id@) == Some(import.endpoint_id@)
                    }
            },
        forall|k: int|
            0 <= k < cfg.exports@.len() ==> {
                let (name, e) = #[trigger] cfg.exports@[k];
                &&& alias_problem(name) is None
                &&& e@.command.len() > 0
                &&& e@.allow_clients.len() > 0
                &&& forall|j: int|
                    0 <= j < e@.allow_clients.len() ==> endpoint_id_text(
                        #[trigger] e@.allow_clients[j],
                    ) == Some(e@.allow_clients[j])
            },
        forall|g: int, h: int|
            0 <= g < h < profile_count(cfg) ==> #[trigger] comparables(p)[g]
                != #[trigger] comparables(p)[h],
        forall|g: int, h: int|
            0 <= g < h < profile_count(cfg) && #[trigger] key_id(p, g) is Some ==> key_id(p, g)
                != #[trigger] key_id(p, h),
{
    let layout = layout_faults(cfg, p);
    let keys = key_faults(cfg, p);
    lemma_first_fault_none_all(layout);
    lemma_first_fault_none_all(keys);
    let nc = cfg.clients@.len() as int;
    assert forall|i: int| 0 <= i < nc implies {
        let (name, c) = #[trigger] cfg.clients@[i];
        &&& alias_problem(name) is None
        &&& forall|k: int|
            0 <= k < c.imports@.len() ==> {
                let (alias, import) = #[trigger] c.imports@[k];
                &&& alias_problem(alias) is None
                &&& import.ticket@.len() > 0
                &&& endpoint_id_text(import.endpoint_id@) == Some(import.endpoint_id@)
            }
    } by {
        assert(layout[i] is None);
        let (name, c) = cfg.clients@[i];
        let faults = import_faults(name, c.imports@);
        lemma_first_fault_none_all(faults);
        assert forall|k: int| 0 <= k < c.imports@.len() implies {
            let (alias, import) = #[trigger] c.imports@[k];
            &&& alias_problem(alias) is None
            &&& import.ticket@.len() > 0
            &&& endpoint_id_text(import.endpoint_id@) == Some(import.endpoint_id@)
        } by {
            assert(faults[k] is None);
        }
    }
    assert forall|k: int| 0 <= k < cfg.exports@.len() implies {
        let (name, e) = #[trigger] cfg.exports@[k];
        &&& alias_problem(name) is None
        &&& e@.command.len() > 0
        &&& e@.allow_clients.len() > 0
        &&& forall|j: int|
            0 <= j < e@.allow_clients.len() ==> endpoint_id_text(#[trigger] e@.allow_clients[j])
                == Some(e@.allow_clients[j])
    } by {
        assert(layout[nc + k] is None);
        let (name, e) = cfg.exports@[k];
        let faults = allowlist_faults(name, e@.allow_clients);
        lemma_first_fault_none_all(faults);
        assert forall|j: int| 0 <= j < e@.allow_clients.len() implies endpoint_id_text(
            #[trigger] e@.allow_clients[j],
        ) == Some(e@.allow_clients[j]) by {
            assert(faults[j] is None);
        }
    }
    assert forall|g: int, h: int| 0 <= g < h < profile_count(cfg) implies #[trigger] comparables(
        p,
    )[g] != #[trigger] comparables(p)[h] by {
        assert(layout[h] is None);
        assert(comparables(p).take(h)[g] == comparables(p)[g]);
    }
    assert forall|g: int, h: int|
        0 <= g < h < profile_count(cfg) && #[trigger] key_id(p, g) is Some implies key_id(p, g)
        != #[trigger] key_id(p, h) by {
        assert(keys[h] is None);
        assert(key_fault(cfg, p, h) is None);
    }
}

/// Every tool that a client lists goes, when called, to the remote it came
/// from and under its name there, as long as the remotes' aliases are
/// distinct and routable.
pub proof fn law_catalog_routes_back(
    aliases: Seq<Seq<char>>,
    labels: Seq<ToolLabelView>,
    origins: Seq<(int, Seq<char>)>,
    j: int,
)
    requires
        catalog_consistent(aliases, labels, origins),
        forall|a: int, b: int| 0 <= a < b < aliases.len() ==> #[trigger] aliases[a] != #[trigger] aliases[b],
        forall|a: int| 0 <= a < aliases.len() ==> routable_alias(#[trigger] aliases[a]),
        0 <= j < labels.len(),
    ensures
        spec_route(labels[j].name, aliases) == Ok::<(int, Seq<char>), crate::protocol::RouteError>(
            origins[j],
        ),
{
    let (r, t) = origins[j];
    assert(0 <= r < aliases.len());
    law_split_undoes_prefix(aliases[r], t);
    lemma_first_alias_index_facts(aliases, aliases[r]);
    match first_alias_index(aliases, aliases[r]) {
        Some(i) => {
            if i < r {
                assert(aliases[i] != aliases[r]);
            }
        },
        None => {
            assert(aliases[r] != aliases[r]);
        },
    }
}

proof fn lemma_hex_digit(n: int)
    requires
        0 <= n < 16,
    ensures
        '0' <= hex_digit(n) <= '9' || 'a' <= hex_digit(n) <= 'f',
        !is_white_space(hex_digit(n)),
{
}

/// Distinct digits below 16 have distinct hex characters.
proof fn lemma_hex_digit_injective(m: int, n: int)
    requires
        0 <= m < 16,
        0 <= n < 16,
        hex_digit(m) == hex_digit(n),
    ensures
        m == n,
{
}

/// Distinct byte strings have distinct lower-case hex texts.
proof fn lemma_hex_lower_text_injective(a: Seq<u8>, b: Seq<u8>)
    requires
        hex_lower_text(a) == hex_lower_text(b),
    ensures
        a == b,
{
    let h = hex_lower_text(a);
    assert(a.len() == b.len()) by {
        assert(h.len() == 2 * a.len());
        assert(hex_lower_text(b).len() == 2 * b.len());
    }
    assert forall|i: int| 0 <= i < a.len() implies a[i] == b[i] by {
        let x = a[i] as int;
        let y = b[i] as int;
        assert(h[2 * i] == hex_lower_text(b)[2 * i]);
        assert(h[2 * i + 1] == hex_lower_text(b)[2 * i + 1]);
        assert((2 * i) / 2 == i && (2 * i) % 2 == 0);
        assert((2 * i + 1) / 2 == i && (2 * i + 1) % 2 == 1);
        lemma_hex_digit_injective(x / 16, y / 16);
        lemma_hex_digit_injective(x % 16, y % 16);
    }
    assert(a =~= b);
}

/// The key file that `identity init` writes for any 32-byte secret key reads
/// back, once trimmed, as 64 lower-case hex digits, a form that always
/// parses as a secret key, and those digits spell that key's bytes and no
/// other bytes.
pub proof fn law_identity_file_reads_back(secret: Seq<u8>)
    requires
        secret.len() == 32,
    ensures
        trimmed(identity_file_text(secret)) == hex_lower_text(secret),
        is_key_hex(hex_lower_text(secret)),
        forall|other: Seq<u8>|
            #[trigger] hex_lower_text(other) == hex_lower_text(secret) ==> other == secret,
{
    let h = hex_lower_text(secret);
    let f = identity_file_text(secret);
    assert forall|i: int| 0 <= i < h.len() implies ('0' <= #[trigger] h[i] <= '9' || 'a' <= h[i] <= 'f')
        && !is_white_space(h[i]) by {
        let b = secret[i / 2] as int;
        if i % 2 == 0 {
            lemma_hex_digit(b / 16);
        } else {
            lemma_hex_digit(b % 16);
        }
    }
    assert(f[0] == h[0]);
    assert(trim_start(f) == f);
    assert(f.drop_last() =~= h);
    assert(is_white_space(f.last()));
    assert(trim_end(f) == trim_end(h));
    assert(h.last() == h[h.len() - 1]);
    assert(trim_end(h) == h);
    assert forall|other: Seq<u8>| #[trigger] hex_lower_text(other) == hex_lower_text(secret) implies other
        == secret by {
        lemma_hex_lower_text_injective(other, secret);
    }
}

/// An export serves a connection only when, from a fresh connection, the
/// first event identified an allowlisted endpoint and the second delivered
/// exactly the tunnel handshake; every other way ends refused.
pub proof fn law_serve_needs_allowlist_and_handshake(
    allowed: Seq<Seq<char>>,
    first: AdmissionEventView,
    second: AdmissionEventView,
)
    ensures
        spec_next_admission(
            allowed,
            spec_next_admission(allowed, Admission::Connected, first),
            second,
        ) == Admission::Serve <==> ((first matches AdmissionEventView::PeerIdentified(id)
            && allowed.contains(id)) && (second matches AdmissionEventView::HandshakeRead(b) && b
            == handshake_spec())),
{
}

/// Once refused, a connection stays refused whatever comes next.
pub proof fn law_refusal_is_final(
    allowed: Seq<Seq<char>>,
    r: crate::protocol::Refusal,
    event: AdmissionEventView,
)
    ensures
        spec_next_admission(allowed, Admission::Refused(r), event) == Admission::Refused(r),
{
}


/// An alias is accepted exactly when it is non-empty, every character is an
/// ASCII letter of either case, an ASCII digit, `-` or `_`, and no two
/// adjacent characters are both `_`.
pub proof fn law_alias_characters(alias: Seq<char>)
    ensures
        alias_problem(alias) is None <==> {
            &&& alias.len() > 0
            &&& forall|i: int|
                0 <= i < alias.len() ==> {
                    let c = #[trigger] alias[i];
                    ||| 'a' <= c <= 'z'
                    ||| 'A' <= c <= 'Z'
                    ||| '0' <= c <= '9'
                    ||| c == '-'
                    ||| c == '_'
                }
            &&& forall|i: int| 0 <= i && i + 1 < alias.len() ==> !(#[trigger] alias[i] == '_' && alias[i + 1] == '_')
        },
{
    if alias_problem(alias) is None {
        assert forall|i: int| 0 <= i && i + 1 < alias.len() implies !(#[trigger] alias[i] == '_' && alias[
            i + 1] == '_') by {
            if alias[i] == '_' && alias[i + 1] == '_' {
                assert(has_double_underscore(alias));
            }
        }
    }
}

/// The characters that trimming removes are exactly those with the Unicode
/// `White_Space` property, as `str::trim` has it: tab, line feed, vertical
/// tab, form feed, carriage return, space, next line, no-break space, ogham
/// space mark, the spaces U+2000 to U+200A, line and paragraph separators,
/// narrow no-break space, medium mathematical space and ideographic space.
pub proof fn law_white_space_characters(c: char)
    ensures
        crate::text::is_white_space(c) <==> {
            ||| c == '\t'
            ||| c == '\n'
            ||| c == '\u{b}'
            ||| c == '\u{c}'
            ||| c == '\r'
            ||| c == ' '
            ||| c == '\u{85}'
            ||| c == '\u{a0}'
            ||| c == '\u{1680}'
            ||| ('\u{2000}' <= c <= '\u{200a}')
            ||| c == '\u{2028}'
            ||| c == '\u{2029}'
            ||| c == '\u{202f}'
            ||| c == '\u{205f}'
            ||| c == '\u{3000}'
        },
{
}

/// Trimming drops every run of spaces, tabs, carriage returns and line feeds
/// before and after a text that starts and ends with a character that is not
/// white space, and leaves that text whole.
pub proof fn law_trim_drops_line_endings(text: Seq<char>, before: Seq<char>, after: Seq<char>)
    requires
        text.len() > 0,
        !crate::text::is_white_space(text[0]),
        !crate::text::is_white_space(text.last()),
        forall|i: int| 0 <= i < before.len() ==> (#[trigger] before[i] == ' ' || before[i] == '\t'
            || before[i] == '\r' || before[i] == '\n'),
        forall|i: int| 0 <= i < after.len() ==> (#[trigger] after[i] == ' ' || after[i] == '\t'
            || after[i] == '\r' || after[i] == '\n'),
    ensures
        trimmed(before + text + after) == text,
{
    let s = before + text + after;
    let a = before.len() as int;
    let b = (before.len() + text.len()) as int;
    assert forall|j: int| 0 <= j < a implies is_white_space(#[trigger] s[j]) by {
        assert(s[j] == before[j]);
    }
    assert(s[a] == text[0]);
    crate::text::lemma_trim_start_at(s, a);
    let t = s.skip(a);
    assert(t =~= text + after);
    assert forall|j: int| b - a <= j < t.len() implies is_white_space(#[trigger] t[j]) by {
        assert(t[j] == after[j - (b - a)]);
    }
    assert(t[b - a - 1] == text.last());
    crate::text::lemma_trim_end_at(t, b - a);
    assert(t.take(b - a) =~= text);
}

/// A key file whose hex line ends in a carriage return and a line feed, as
/// editors on Windows save it, trims to the same hex digits as one ending in
/// a line feed alone.
pub proof fn law_key_file_line_endings(secret: Seq<u8>)
    requires
        secret.len() == 32,
    ensures
        trimmed(hex_lower_text(secret) + seq!['\r', '\n']) == hex_lower_text(secret),
        trimmed(hex_lower_text(secret) + seq!['\n']) == hex_lower_text(secret),
{
    let h = hex_lower_text(secret);
    law_identity_file_reads_back(secret);
    assert(!is_white_space(h[0])) by {
        lemma_hex_digit(secret[0] as int / 16);
    }
    assert(!is_white_space(h.last())) by {
        assert(h.last() == h[63]);
        assert(63int / 2 == 31 && 63int % 2 == 1);
        lemma_hex_digit(secret[31] as int % 16);
    }
    let crlf = seq!['\r', '\n'];
    let lf = seq!['\n'];
    assert(Seq::<char>::empty() + h =~= h);
    law_trim_drops_line_endings(h, Seq::<char>::empty(), crlf);
    law_trim_drops_line_endings(h, Seq::<char>::empty(), lf);
}

/// A working directory that does not start with `/` is resolved onto the
/// configuration directory as `PathBuf::join` does it (with a `/` between
/// the two unless the directory is empty or ends in one); one that starts
/// with `/` is kept as written, and no working directory stays none.
pub proof fn law_relative_cwd_is_joined(base_dir: Seq<char>, cwd: Seq<char>)
    ensures
        cwd.len() == 0 || cwd[0] != '/' ==> crate::config::resolved_cwd(base_dir, Some(cwd)) == Some(
            if base_dir.len() > 0 && base_dir.last() != '/' {
                base_dir + seq!['/'] + cwd
            } else {
                base_dir + cwd
            },
        ),
        cwd.len() > 0 && cwd[0] == '/' ==> crate::config::resolved_cwd(base_dir, Some(cwd)) == Some(
            cwd,
        ),
        crate::config::resolved_cwd(base_dir, None) is None,
{
}

/// A profile's identity path is not taken when it differs from those of
/// all earlier profiles.
proof fn lemma_path_not_reused(p: crate::validation::IdentityProbes, g: int)
    requires
        0 <= g < comparables(p).len(),
        forall|h: int| 0 <= h < g ==> #[trigger] comparables(p)[h] != comparables(p)[g],
    ensures
        !crate::validation::path_reused(p, g),
{
    if comparables(p).take(g).contains(comparables(p)[g]) {
        let j = choose|j: int| 0 <= j < g && #[trigger] comparables(p).take(g)[j] == comparables(p)[g];
        assert(comparables(p).take(g)[j] == comparables(p)[j]);
    }
}

/// An export profile is not refused when its name is a valid alias, its
/// identity path is not taken by an earlier profile, its command is not
/// empty, and its allowlist holds at least one entry, each a canonical
/// endpoint ID, however many entries there are.
pub proof fn law_valid_export_accepted(cfg: Config, p: crate::validation::IdentityProbes, k: int)
    requires
        probes_match(cfg, p),
        0 <= k < cfg.exports@.len(),
        alias_problem(cfg.exports@[k].0) is None,
        forall|h: int|
            0 <= h < cfg.clients@.len() + k ==> #[trigger] comparables(p)[h] != comparables(p)[cfg.clients@.len()
                + k],
        cfg.exports@[k].1@.command.len() > 0,
        cfg.exports@[k].1@.allow_clients.len() > 0,
        forall|j: int|
            0 <= j < cfg.exports@[k].1@.allow_clients.len() ==> {
                let id = #[trigger] cfg.exports@[k].1@.allow_clients[j];
                id.len() > 0 && endpoint_id_text(id) == Some(id)
            },
    ensures
        crate::validation::export_fault(cfg, p, k) is None,
{
    let (name, e) = cfg.exports@[k];
    let g = cfg.clients@.len() + k;
    assert(comparables(p).len() == profile_count(cfg));
    lemma_path_not_reused(p, g);
    let faults = allowlist_faults(name, e@.allow_clients);
    assert forall|j: int| 0 <= j < faults.len() implies faults[j] is None by {
        let id = e@.allow_clients[j];
        assert(endpoint_id_fault(id) is None);
    }
    crate::validation::lemma_first_fault_none(faults);
}

/// A client profile is not refused when its name is a valid alias, its
/// identity path is not taken by an earlier profile, and each import has a
/// valid alias, a ticket, and a canonical endpoint ID.
pub proof fn law_valid_client_accepted(cfg: Config, p: crate::validation::IdentityProbes, i: int)
    requires
        probes_match(cfg, p),
        0 <= i < cfg.clients@.len(),
        alias_problem(cfg.clients@[i].0) is None,
        forall|h: int| 0 <= h < i ==> #[trigger] comparables(p)[h] != comparables(p)[i],
        forall|k: int|
            0 <= k < cfg.clients@[i].1.imports@.len() ==> {
                let (alias, import) = #[trigger] cfg.clients@[i].1.imports@[k];
                &&& alias_problem(alias) is None
                &&& import.ticket@.len() > 0
                &&& import.endpoint_id@.len() > 0
                &&& endpoint_id_text(import.endpoint_id@) == Some(import.endpoint_id@)
            },
    ensures
        crate::validation::client_fault(cfg, p, i) is None,
{
    let (name, c) = cfg.clients@[i];
    assert(comparables(p).len() == profile_count(cfg));
    lemma_path_not_reused(p, i);
    let faults = import_faults(name, c.imports@);
    assert forall|k: int| 0 <= k < faults.len() implies faults[k] is None by {
        let (alias, import) = c.imports@[k];
        assert(endpoint_id_fault(import.endpoint_id@) is None);
    }
    crate::validation::lemma_first_fault_none(faults);
}

/// A configuration validates when every client and export profile is
/// well-formed (valid aliases, tickets, commands, non-empty allowlists of
/// canonical endpoint IDs, of any length), no two profiles share an identity
/// path, every key file is either absent or readable and holding a secret
/// key, and no two key files hold the same key.
pub proof fn law_well_formed_config_validates(cfg: Config, p: crate::validation::IdentityProbes)
    requires
        probes_match(cfg, p),
        forall|i: int|
            0 <= i < cfg.clients@.len() ==> {
                let (name, c) = #[trigger] cfg.clients@[i];
                &&& alias_problem(name) is None
                &&& forall|k: int|
                    0 <= k < c.imports@.len() ==> {
                        let (alias, import) = #[trigger] c.imports@[k];
                        &&& alias_problem(alias) is None
                        &&& import.ticket@.len() > 0
                        &&& import.endpoint_id@.len() > 0
                        &&& endpoint_id_text(import.endpoint_id@) == Some(import.endpoint_id@)
                    }
            },
        forall|k: int|
            0 <= k < cfg.exports@.len() ==> {
                let (name, e) = #[trigger] cfg.exports@[k];
                &&& alias_problem(name) is None
                &&& e@.command.len() > 0
                &&& e@.allow_clients.len() > 0
                &&& forall|j: int|
                    0 <= j < e@.allow_clients.len() ==> {
                        let id = #[trigger] e@.allow_clients[j];
                        id.len() > 0 && endpoint_id_text(id) == Some(id)
                    }
            },
        forall|g: int, h: int|
            0 <= g < h < profile_count(cfg) ==> #[trigger] comparables(p)[g] != #[trigger] comparables(p)[h],
        forall|g: int|
            0 <= g < profile_count(cfg) ==> match #[trigger] crate::validation::probe_list(p)[g].key_file {
                crate::validation::KeyFile::Missing => true,
                crate::validation::KeyFile::Unreadable => false,
                crate::validation::KeyFile::Contents(_) => key_id(p, g) is Some,
            },
        forall|g: int, h: int|
            0 <= g < h < profile_count(cfg) && #[trigger] key_id(p, g) is Some ==> key_id(p, g)
                != #[trigger] key_id(p, h),
    ensures
        config_fault(cfg, p) is None,
{
    let nc = cfg.clients@.len() as int;
    let layout = layout_faults(cfg, p);
    assert(comparables(p).len() == profile_count(cfg));
    assert forall|g: int| 0 <= g < layout.len() implies layout[g] is None by {
        if g < nc {
            assert forall|h: int| 0 <= h < g implies #[trigger] comparables(p)[h] != comparables(p)[g] by {
                assert(comparables(p)[h] != comparables(p)[g]);
            }
            let (name, c) = cfg.clients@[g];
            law_valid_client_accepted(cfg, p, g);
        } else {
            let k = g - nc;
            assert forall|h: int| 0 <= h < nc + k implies #[trigger] comparables(p)[h] != comparables(p)[nc + k] by {
                assert(comparables(p)[h] != comparables(p)[g]);
            }
            let (name, e) = cfg.exports@[k];
            law_valid_export_accepted(cfg, p, k);
        }
    }
    crate::validation::lemma_first_fault_none(layout);
    let keys = key_faults(cfg, p);
    assert forall|g: int| 0 <= g < keys.len() implies keys[g] is None by {
        let kf = crate::validation::probe_list(p)[g].key_file;
        match kf {
            crate::validation::KeyFile::Contents(t) => {
                let pk = key_id(p, g)->0;
                if exists|h: int| 0 <= h < g && #[trigger] key_id(p, h) == Some(pk) {
                    let h = choose|h: int| 0 <= h < g && #[trigger] key_id(p, h) == Some(pk);
                    assert(key_id(p, h) != key_id(p, g));
                }
            },
            _ => {},
        }
    }
    crate::validation::lemma_first_fault_none(keys);
}

} // verus!
