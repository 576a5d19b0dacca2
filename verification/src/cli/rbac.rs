//! The RBAC manifest (ServiceAccount, Role, RoleBinding) that grants exactly
//! what the chosen faults need.

use vstd::prelude::*;
use crate::cli::args::texts;
use crate::probe::has_infix;
use crate::text::{push_str, same_str, trim, trim_str};

verus! {

/// Whether some fault, trimmed, is one of `names`.
pub open spec fn any_fault_in(faults: Seq<Seq<char>>, names: Seq<Seq<char>>) -> bool {
    exists|i: int| 0 <= i < faults.len() && names.contains(trim(#[trigger] faults[i]))
}

/// Faults that delete pods: crash and eviction.
pub open spec fn deleting_faults() -> Seq<Seq<char>> {
    seq!["crash"@, "eviction"@]
}

/// Faults that run commands in pods: latency, partition, stress, dns.
pub open spec fn exec_faults() -> Seq<Seq<char>> {
    seq!["latency"@, "partition"@, "stress"@, "dns"@]
}

/// Faults that may need an ephemeral container: the exec faults and debug.
pub open spec fn ephemeral_faults() -> Seq<Seq<char>> {
    seq!["latency"@, "partition"@, "stress"@, "dns"@, "debug"@]
}

/// Faults that evict pods.
pub open spec fn eviction_faults() -> Seq<Seq<char>> {
    seq!["eviction"@]
}

/// The ServiceAccount's opening lines, up to its name.
pub open spec fn service_account_header() -> Seq<char> {
    "apiVersion: v1\nkind: ServiceAccount\nmetadata:\n  name: "@
}
/// The line that gives a namespace.
pub open spec fn namespace_line() -> Seq<char> {
    "\n  namespace: "@
}
/// The Role's opening lines, up to its name.
pub open spec fn role_header() -> Seq<char> {
    "\n---\napiVersion: rbac.authorization.k8s.io/v1\nkind: Role\nmetadata:\n  name: "@
}
/// The end of the Role's name, and its namespace line.
pub open spec fn role_suffix() -> Seq<char> {
    "-role\n  namespace: "@
}
/// The start of the Role's rules.
pub open spec fn rules_line() -> Seq<char> {
    "\nrules:\n"@
}
/// The rule on pods, up to its verbs `get` and `list`.
pub open spec fn pods_rule() -> Seq<char> {
    "  - apiGroups: [\"\"]\n    resources: [\"pods\"]\n    verbs: [\"get\", \"list\""@
}
/// The `delete` verb.
pub open spec fn delete_verb() -> Seq<char> {
    ", \"delete\""@
}
/// The end of the rule on pods.
pub open spec fn pods_rule_end() -> Seq<char> {
    "]\n"@
}
/// The rule on `pods/exec`.
pub open spec fn exec_rule() -> Seq<char> {
    "  - apiGroups: [\"\"]\n    resources: [\"pods/exec\"]\n    verbs: [\"create\"]\n"@
}
/// The rule on `pods/ephemeralcontainers`.
pub open spec fn ephemeral_rule() -> Seq<char> {
    "  - apiGroups: [\"\"]\n    resources: [\"pods/ephemeralcontainers\"]\n    verbs: [\"update\"]\n"@
}
/// The rule on `pods/eviction`.
pub open spec fn eviction_rule() -> Seq<char> {
    "  - apiGroups: [\"policy\"]\n    resources: [\"pods/eviction\"]\n    verbs: [\"create\"]\n"@
}
/// The RoleBinding's opening lines, up to its name.
pub open spec fn binding_header() -> Seq<char> {
    "---\napiVersion: rbac.authorization.k8s.io/v1\nkind: RoleBinding\nmetadata:\n  name: "@
}
/// The end of the RoleBinding's name, and its namespace line.
pub open spec fn binding_suffix() -> Seq<char> {
    "-binding\n  namespace: "@
}
/// The RoleBinding's reference to the Role, up to the Role's name.
pub open spec fn role_ref() -> Seq<char> {
    "\nroleRef:\n  apiGroup: rbac.authorization.k8s.io\n  kind: Role\n  name: "@
}
/// The end of the Role's name, then the RoleBinding's subject up to the
/// ServiceAccount's name.
pub open spec fn binding_subject() -> Seq<char> {
    "-role\nsubjects:\n- kind: ServiceAccount\n  name: "@
}
/// A line end.
pub open spec fn line_end() -> Seq<char> {
    "\n"@
}
/// `s` when `b` holds, and nothing otherwise.
pub open spec fn optional(b: bool, s: Seq<char>) -> Seq<char> {
    if b {
        s
    } else {
        ""@
    }
}

/// The Role's rules for the given faults: pod `get`/`list` (and `delete` for
/// crash or eviction), then `pods/exec`, `pods/ephemeralcontainers` and
/// `pods/eviction` where needed.
pub open spec fn rbac_rules(faults: Seq<Seq<char>>) -> Seq<char> {
    pods_rule() + optional(any_fault_in(faults, deleting_faults()), delete_verb()) + pods_rule_end() + optional(
        any_fault_in(faults, exec_faults()),
        exec_rule(),
    ) + optional(any_fault_in(faults, ephemeral_faults()), ephemeral_rule()) + optional(
        any_fault_in(faults, eviction_faults()),
        eviction_rule(),
    )
}

/// The manifest up to the Role's rules: the ServiceAccount, then the Role's
/// header.
pub open spec fn rbac_head(ns: Seq<char>, sa: Seq<char>) -> Seq<char> {
    service_account_header() + sa + namespace_line() + ns + role_header() + sa + role_suffix() + ns + rules_line()
}

/// The manifest after the Role's rules: the RoleBinding.
pub open spec fn rbac_tail(ns: Seq<char>, sa: Seq<char>) -> Seq<char> {
    binding_header() + sa + binding_suffix() + ns + role_ref() + sa + binding_subject() + sa + namespace_line() + ns
        + line_end()
}

/// The whole manifest for service account `sa` in namespace `ns`.
pub open spec fn rbac_manifest(ns: Seq<char>, faults: Seq<Seq<char>>, sa: Seq<char>) -> Seq<char> {
    rbac_head(ns, sa) + rbac_rules(faults) + rbac_tail(ns, sa)
}

/// A text holding `w` still holds it with more text on either side.
proof fn lemma_infix_extends(w: Seq<char>)
    ensures
        forall|a: Seq<char>, b: Seq<char>| #[trigger] has_infix(a + b, w) <== has_infix(a, w) || has_infix(b, w),
{
    assert forall|a: Seq<char>, b: Seq<char>| has_infix(a, w) || has_infix(b, w) implies #[trigger] has_infix(
        a + b,
        w,
    ) by {
        if has_infix(a, w) {
            let i = choose|i: int| 0 <= i <= a.len() - w.len() && #[trigger] a.subrange(i, i + w.len()) == w;
            assert((a + b).subrange(i, i + w.len()) =~= a.subrange(i, i + w.len()));
        } else {
            let i = choose|i: int| 0 <= i <= b.len() - w.len() && #[trigger] b.subrange(i, i + w.len()) == w;
            assert((a + b).subrange(a.len() + i, a.len() + i + w.len()) =~= b.subrange(i, i + w.len()));
        }
    }
}

/// `w` sits at `i` in `s`.
proof fn lemma_infix_at(s: Seq<char>, w: Seq<char>, i: int)
    requires
        0 <= i,
        i + w.len() <= s.len(),
        s.subrange(i, i + w.len()) == w,
    ensures
        has_infix(s, w),
{
}

/// Every `w[k]` in `s` has room around it in `s` for a whole `w` aligned on
/// it: an occurrence of `w` in a text made of such pieces lies within one
/// piece.
pub open spec fn anchored(s: Seq<char>, w: Seq<char>, k: int) -> bool {
    forall|o: int| 0 <= o < s.len() && #[trigger] s[o] == w[k] ==> k <= o && o + w.len() - k <= s.len()
}

/// Joining two anchored pieces keeps them anchored, and an occurrence in the
/// join lies in one of them.
proof fn lemma_anchored_pair(a: Seq<char>, b: Seq<char>, w: Seq<char>, k: int)
    requires
        0 <= k < w.len(),
        anchored(a, w, k),
        anchored(b, w, k),
    ensures
        anchored(a + b, w, k),
        has_infix(a + b, w) ==> has_infix(a, w) || has_infix(b, w),
{
    let s = a + b;
    assert forall|o: int| 0 <= o < s.len() && #[trigger] s[o] == w[k] implies k <= o && o + w.len() - k
        <= s.len() by {
        if o < a.len() {
            assert(a[o] == s[o]);
        } else {
            assert(b[o - a.len()] == s[o]);
        }
    }
    if has_infix(s, w) {
        let i = choose|i: int| 0 <= i <= s.len() - w.len() && #[trigger] s.subrange(i, i + w.len()) == w;
        let q = i + k;
        assert(s.subrange(i, i + w.len())[k] == s[q]);
        if q < a.len() {
            assert(a[q] == s[q]);
            assert(a.subrange(i, i + w.len()) =~= s.subrange(i, i + w.len()));
        } else {
            assert(b[q - a.len()] == s[q]);
            assert(b.subrange(i - a.len(), i - a.len() + w.len()) =~= s.subrange(i, i + w.len()));
        }
    }
}

/// A piece without the character `w[k]` is anchored and holds no `w`.
proof fn lemma_piece_without(s: Seq<char>, w: Seq<char>, k: int)
    requires
        0 <= k < w.len(),
        forall|o: int| 0 <= o < s.len() ==> s[o] != w[k],
    ensures
        anchored(s, w, k),
        !has_infix(s, w),
{
    if has_infix(s, w) {
        let i = choose|i: int| 0 <= i <= s.len() - w.len() && #[trigger] s.subrange(i, i + w.len()) == w;
        assert(s.subrange(i, i + w.len())[k] == s[i + k]);
    }
}

/// A piece whose only `w[k]` is at `q`, with room around it and no `w` there,
/// is anchored and holds no `w`.
proof fn lemma_piece_with_one(s: Seq<char>, w: Seq<char>, k: int, q: int)
    requires
        0 <= k < w.len(),
        k <= q,
        q + w.len() - k <= s.len(),
        forall|o: int| 0 <= o < s.len() && s[o] == w[k] ==> o == q,
        s.subrange(q - k, q - k + w.len()) != w,
    ensures
        anchored(s, w, k),
        !has_infix(s, w),
{
    if has_infix(s, w) {
        let i = choose|i: int| 0 <= i <= s.len() - w.len() && #[trigger] s.subrange(i, i + w.len()) == w;
        assert(s.subrange(i, i + w.len())[k] == s[i + k]);
    }
}

/// A name that holds neither a slash nor a double quote.
pub open spec fn plain_name(s: Seq<char>) -> bool {
    forall|o: int| 0 <= o < s.len() ==> s[o] != '/' && s[o] != '"'
}

/// The pieces of the manifest without a slash (the names, when plain, and
/// the literals but the API headers and the rules on pod subresources) are
/// anchored on the slash of a word whose fifth character is one, and none
/// holds the word.
proof fn lemma_slash_free_pieces(ns: Seq<char>, sa: Seq<char>, w: Seq<char>)
    requires
        plain_name(ns),
        plain_name(sa),
        4 < w.len(),
        w[4] == '/',
    ensures
        anchored(ns, w, 4) && !has_infix(ns, w),
        anchored(sa, w, 4) && !has_infix(sa, w),
        anchored(""@, w, 4) && !has_infix(""@, w),
        anchored(service_account_header(), w, 4) && !has_infix(service_account_header(), w),
        anchored(namespace_line(), w, 4) && !has_infix(namespace_line(), w),
        anchored(role_suffix(), w, 4) && !has_infix(role_suffix(), w),
        anchored(rules_line(), w, 4) && !has_infix(rules_line(), w),
        anchored(pods_rule(), w, 4) && !has_infix(pods_rule(), w),
        anchored(delete_verb(), w, 4) && !has_infix(delete_verb(), w),
        anchored(pods_rule_end(), w, 4) && !has_infix(pods_rule_end(), w),
        anchored(binding_suffix(), w, 4) && !has_infix(binding_suffix(), w),
        anchored(role_ref(), w, 4) && !has_infix(role_ref(), w),
        anchored(binding_subject(), w, 4) && !has_infix(binding_subject(), w),
        anchored(line_end(), w, 4) && !has_infix(line_end(), w),
{
    lemma_piece_without(ns, w, 4);
    lemma_piece_without(sa, w, 4);
    reveal_strlit("");
    lemma_piece_without(""@, w, 4);
    reveal_strlit("apiVersion: v1\nkind: ServiceAccount\nmetadata:\n  name: ");
    lemma_piece_without(service_account_header(), w, 4);
    reveal_strlit("\n  namespace: ");
    lemma_piece_without(namespace_line(), w, 4);
    reveal_strlit("-role\n  namespace: ");
    lemma_piece_without(role_suffix(), w, 4);
    reveal_strlit("\nrules:\n");
    lemma_piece_without(rules_line(), w, 4);
    reveal_strlit("  - apiGroups: [\"\"]\n    resources: [\"pods\"]\n    verbs: [\"get\", \"list\"");
    lemma_piece_without(pods_rule(), w, 4);
    reveal_strlit(", \"delete\"");
    lemma_piece_without(delete_verb(), w, 4);
    reveal_strlit("]\n");
    lemma_piece_without(pods_rule_end(), w, 4);
    reveal_strlit("-binding\n  namespace: ");
    lemma_piece_without(binding_suffix(), w, 4);
    reveal_strlit("\nroleRef:\n  apiGroup: rbac.authorization.k8s.io\n  kind: Role\n  name: ");
    lemma_piece_without(role_ref(), w, 4);
    reveal_strlit("-role\nsubjects:\n- kind: ServiceAccount\n  name: ");
    lemma_piece_without(binding_subject(), w, 4);
    reveal_strlit("\n");
    lemma_piece_without(line_end(), w, 4);
}

/// Each piece of the manifest with a slash has just one, with room around
/// it for a word of up to 24 characters whose fifth is the slash.
proof fn lemma_slashed_pieces(w: Seq<char>)
    requires
        4 < w.len() <= 24,
        w[4] == '/',
    ensures
        anchored(role_header(), w, 4),
        forall|o: int| 0 <= o < role_header().len() && role_header()[o] == w[4] ==> o == 42,
        anchored(binding_header(), w, 4),
        forall|o: int| 0 <= o < binding_header().len() && binding_header()[o] == w[4] ==> o == 41,
        anchored(exec_rule(), w, 4),
        forall|o: int| 0 <= o < exec_rule().len() && exec_rule()[o] == w[4] ==> o == 41,
        anchored(ephemeral_rule(), w, 4),
        forall|o: int| 0 <= o < ephemeral_rule().len() && ephemeral_rule()[o] == w[4] ==> o == 41,
        anchored(eviction_rule(), w, 4),
        forall|o: int| 0 <= o < eviction_rule().len() && eviction_rule()[o] == w[4] ==> o == 47,
{
    reveal_strlit("\n---\napiVersion: rbac.authorization.k8s.io/v1\nkind: Role\nmetadata:\n  name: ");
    assert(forall|o: int| 0 <= o < role_header().len() && role_header()[o] == '/' ==> o == 42);
    assert(42 + 20 <= role_header().len());
    reveal_strlit("---\napiVersion: rbac.authorization.k8s.io/v1\nkind: RoleBinding\nmetadata:\n  name: ");
    assert(forall|o: int| 0 <= o < binding_header().len() && binding_header()[o] == '/' ==> o == 41);
    assert(41 + 20 <= binding_header().len());
    reveal_strlit("  - apiGroups: [\"\"]\n    resources: [\"pods/exec\"]\n    verbs: [\"create\"]\n");
    assert(forall|o: int| 0 <= o < exec_rule().len() && exec_rule()[o] == '/' ==> o == 41);
    assert(41 + 20 <= exec_rule().len());
    reveal_strlit("  - apiGroups: [\"\"]\n    resources: [\"pods/ephemeralcontainers\"]\n    verbs: [\"update\"]\n");
    assert(forall|o: int| 0 <= o < ephemeral_rule().len() && ephemeral_rule()[o] == '/' ==> o == 41);
    assert(41 + 20 <= ephemeral_rule().len());
    reveal_strlit("  - apiGroups: [\"policy\"]\n    resources: [\"pods/eviction\"]\n    verbs: [\"create\"]\n");
    assert(forall|o: int| 0 <= o < eviction_rule().len() && eviction_rule()[o] == '/' ==> o == 47);
    assert(47 + 20 <= eviction_rule().len());
}

/// With plain names, a word of up to 24 characters whose fifth is a slash
/// occurs in the manifest only inside an API header or a rule that the
/// faults call for.
proof fn lemma_slashed_word_in_piece(ns: Seq<char>, faults: Seq<Seq<char>>, sa: Seq<char>, w: Seq<char>)
    requires
        plain_name(ns),
        plain_name(sa),
        4 < w.len() <= 24,
        w[4] == '/',
        has_infix(rbac_manifest(ns, faults, sa), w),
    ensures
        has_infix(role_header(), w) || has_infix(binding_header(), w) || (any_fault_in(faults, exec_faults())
            && has_infix(exec_rule(), w)) || (any_fault_in(faults, ephemeral_faults()) && has_infix(
            ephemeral_rule(),
            w,
        )) || (any_fault_in(faults, eviction_faults()) && has_infix(eviction_rule(), w)),
{
    lemma_slash_free_pieces(ns, sa, w);
    lemma_slashed_pieces(w);
    let del = any_fault_in(faults, deleting_faults());
    let exec = any_fault_in(faults, exec_faults());
    let eph = any_fault_in(faults, ephemeral_faults());
    let ev = any_fault_in(faults, eviction_faults());
    let part1 = service_account_header();
    lemma_anchored_pair(part1, sa, w, 4);
    let part2 = part1 + sa;
    lemma_anchored_pair(part2, namespace_line(), w, 4);
    let part3 = part2 + namespace_line();
    lemma_anchored_pair(part3, ns, w, 4);
    let part4 = part3 + ns;
    lemma_anchored_pair(part4, role_header(), w, 4);
    let part5 = part4 + role_header();
    lemma_anchored_pair(part5, sa, w, 4);
    let part6 = part5 + sa;
    lemma_anchored_pair(part6, role_suffix(), w, 4);
    let part7 = part6 + role_suffix();
    lemma_anchored_pair(part7, ns, w, 4);
    let part8 = part7 + ns;
    lemma_anchored_pair(part8, rules_line(), w, 4);
    assert(part8 + rules_line() == rbac_head(ns, sa));
    let part9 = binding_header();
    lemma_anchored_pair(part9, sa, w, 4);
    let part10 = part9 + sa;
    lemma_anchored_pair(part10, binding_suffix(), w, 4);
    let part11 = part10 + binding_suffix();
    lemma_anchored_pair(part11, ns, w, 4);
    let part12 = part11 + ns;
    lemma_anchored_pair(part12, role_ref(), w, 4);
    let part13 = part12 + role_ref();
    lemma_anchored_pair(part13, sa, w, 4);
    let part14 = part13 + sa;
    lemma_anchored_pair(part14, binding_subject(), w, 4);
    let part15 = part14 + binding_subject();
    lemma_anchored_pair(part15, sa, w, 4);
    let part16 = part15 + sa;
    lemma_anchored_pair(part16, namespace_line(), w, 4);
    let part17 = part16 + namespace_line();
    lemma_anchored_pair(part17, ns, w, 4);
    let part18 = part17 + ns;
    lemma_anchored_pair(part18, line_end(), w, 4);
    assert(part18 + line_end() == rbac_tail(ns, sa));
    let part19 = pods_rule();
    lemma_anchored_pair(part19, optional(del, delete_verb()), w, 4);
    let part20 = part19 + optional(del, delete_verb());
    lemma_anchored_pair(part20, pods_rule_end(), w, 4);
    let part21 = part20 + pods_rule_end();
    lemma_anchored_pair(part21, optional(exec, exec_rule()), w, 4);
    let part22 = part21 + optional(exec, exec_rule());
    lemma_anchored_pair(part22, optional(eph, ephemeral_rule()), w, 4);
    let part23 = part22 + optional(eph, ephemeral_rule());
    lemma_anchored_pair(part23, optional(ev, eviction_rule()), w, 4);
    assert(part23 + optional(ev, eviction_rule()) == rbac_rules(faults));
    lemma_anchored_pair(rbac_head(ns, sa), rbac_rules(faults), w, 4);
    lemma_anchored_pair(rbac_head(ns, sa) + rbac_rules(faults), rbac_tail(ns, sa), w, 4);
}

/// A piece whose every `w[k]` is at one of the positions `qs`, each with
/// room around it and no `w` there, is anchored and holds no `w`.
proof fn lemma_piece_checked(s: Seq<char>, w: Seq<char>, k: int, qs: Seq<int>)
    requires
        0 <= k < w.len(),
        forall|o: int| 0 <= o < s.len() && s[o] == w[k] ==> qs.contains(o),
        forall|j: int|
            0 <= j < qs.len() ==> k <= qs[j] && qs[j] + w.len() - k <= s.len() && s.subrange(
                qs[j] - k,
                qs[j] - k + w.len(),
            ) != w,
    ensures
        anchored(s, w, k),
        !has_infix(s, w),
{
    assert forall|o: int| 0 <= o < s.len() && #[trigger] s[o] == w[k] implies k <= o && o + w.len() - k
        <= s.len() by {
        let j = choose|j: int| 0 <= j < qs.len() && qs[j] == o;
    }
    if has_infix(s, w) {
        let i = choose|i: int| 0 <= i <= s.len() - w.len() && #[trigger] s.subrange(i, i + w.len()) == w;
        assert(s.subrange(i, i + w.len())[k] == s[i + k]);
        let j = choose|j: int| 0 <= j < qs.len() && qs[j] == i + k;
    }
}

/// With plain names, the manifest grants `delete` on pods only when a crash
/// or eviction fault is chosen.
proof fn lemma_delete_only_when_needed(ns: Seq<char>, faults: Seq<Seq<char>>, sa: Seq<char>)
    requires
        plain_name(ns),
        plain_name(sa),
        !any_fault_in(faults, deleting_faults()),
    ensures
        !has_infix(rbac_manifest(ns, faults, sa), "\"delete\""@),
{
    let w = "\"delete\""@;
    reveal_strlit("\"delete\"");
    assert(w[7] == '"');
    let exec = any_fault_in(faults, exec_faults());
    let eph = any_fault_in(faults, ephemeral_faults());
    let ev = any_fault_in(faults, eviction_faults());
    lemma_piece_without(ns, w, 7);
    lemma_piece_without(sa, w, 7);
    reveal_strlit("");
    lemma_piece_without(""@, w, 7);
    reveal_strlit("apiVersion: v1\nkind: ServiceAccount\nmetadata:\n  name: ");
    lemma_piece_without(service_account_header(), w, 7);
    reveal_strlit("\n  namespace: ");
    lemma_piece_without(namespace_line(), w, 7);
    reveal_strlit("\n---\napiVersion: rbac.authorization.k8s.io/v1\nkind: Role\nmetadata:\n  name: ");
    lemma_piece_without(role_header(), w, 7);
    reveal_strlit("-role\n  namespace: ");
    lemma_piece_without(role_suffix(), w, 7);
    reveal_strlit("\nrules:\n");
    lemma_piece_without(rules_line(), w, 7);
    reveal_strlit("]\n");
    lemma_piece_without(pods_rule_end(), w, 7);
    reveal_strlit("---\napiVersion: rbac.authorization.k8s.io/v1\nkind: RoleBinding\nmetadata:\n  name: ");
    lemma_piece_without(binding_header(), w, 7);
    reveal_strlit("-binding\n  namespace: ");
    lemma_piece_without(binding_suffix(), w, 7);
    reveal_strlit("\nroleRef:\n  apiGroup: rbac.authorization.k8s.io\n  kind: Role\n  name: ");
    lemma_piece_without(role_ref(), w, 7);
    reveal_strlit("-role\nsubjects:\n- kind: ServiceAccount\n  name: ");
    lemma_piece_without(binding_subject(), w, 7);
    reveal_strlit("\n");
    lemma_piece_without(line_end(), w, 7);
    reveal_strlit("  - apiGroups: [\"\"]\n    resources: [\"pods\"]\n    verbs: [\"get\", \"list\"");
    assert(forall|o: int| 0 <= o < pods_rule().len() && pods_rule()[o] == '"' ==> seq![16, 17, 36, 41, 56, 60, 63, 68].contains(o));
    assert(pods_rule().subrange(9, 17)[0] != w[0]);
    assert(pods_rule().subrange(10, 18)[0] != w[0]);
    assert(pods_rule().subrange(29, 37)[0] != w[0]);
    assert(pods_rule().subrange(34, 42)[0] != w[0]);
    assert(pods_rule().subrange(49, 57)[0] != w[0]);
    assert(pods_rule().subrange(53, 61)[0] != w[0]);
    assert(pods_rule().subrange(56, 64)[1] != w[1]);
    assert(pods_rule().subrange(61, 69)[0] != w[0]);
    lemma_piece_checked(pods_rule(), w, 7, seq![16, 17, 36, 41, 56, 60, 63, 68]);
    reveal_strlit("  - apiGroups: [\"\"]\n    resources: [\"pods/exec\"]\n    verbs: [\"create\"]\n");
    assert(forall|o: int| 0 <= o < exec_rule().len() && exec_rule()[o] == '"' ==> seq![16, 17, 36, 46, 61, 68].contains(o));
    assert(exec_rule().subrange(9, 17)[0] != w[0]);
    assert(exec_rule().subrange(10, 18)[0] != w[0]);
    assert(exec_rule().subrange(29, 37)[0] != w[0]);
    assert(exec_rule().subrange(39, 47)[0] != w[0]);
    assert(exec_rule().subrange(54, 62)[0] != w[0]);
    assert(exec_rule().subrange(61, 69)[1] != w[1]);
    lemma_piece_checked(exec_rule(), w, 7, seq![16, 17, 36, 46, 61, 68]);
    reveal_strlit("  - apiGroups: [\"\"]\n    resources: [\"pods/ephemeralcontainers\"]\n    verbs: [\"update\"]\n");
    assert(forall|o: int| 0 <= o < ephemeral_rule().len() && ephemeral_rule()[o] == '"' ==> seq![16, 17, 36, 61, 76, 83].contains(o));
    assert(ephemeral_rule().subrange(9, 17)[0] != w[0]);
    assert(ephemeral_rule().subrange(10, 18)[0] != w[0]);
    assert(ephemeral_rule().subrange(29, 37)[0] != w[0]);
    assert(ephemeral_rule().subrange(54, 62)[0] != w[0]);
    assert(ephemeral_rule().subrange(69, 77)[0] != w[0]);
    assert(ephemeral_rule().subrange(76, 84)[1] != w[1]);
    lemma_piece_checked(ephemeral_rule(), w, 7, seq![16, 17, 36, 61, 76, 83]);
    reveal_strlit("  - apiGroups: [\"policy\"]\n    resources: [\"pods/eviction\"]\n    verbs: [\"create\"]\n");
    assert(forall|o: int| 0 <= o < eviction_rule().len() && eviction_rule()[o] == '"' ==> seq![16, 23, 42, 56, 71, 78].contains(o));
    assert(eviction_rule().subrange(9, 17)[0] != w[0]);
    assert(eviction_rule().subrange(16, 24)[1] != w[1]);
    assert(eviction_rule().subrange(35, 43)[0] != w[0]);
    assert(eviction_rule().subrange(49, 57)[0] != w[0]);
    assert(eviction_rule().subrange(64, 72)[0] != w[0]);
    assert(eviction_rule().subrange(71, 79)[1] != w[1]);
    lemma_piece_checked(eviction_rule(), w, 7, seq![16, 23, 42, 56, 71, 78]);
    let part1 = service_account_header();
    lemma_anchored_pair(part1, sa, w, 7);
    let part2 = part1 + sa;
    lemma_anchored_pair(part2, namespace_line(), w, 7);
    let part3 = part2 + namespace_line();
    lemma_anchored_pair(part3, ns, w, 7);
    let part4 = part3 + ns;
    lemma_anchored_pair(part4, role_header(), w, 7);
    let part5 = part4 + role_header();
    lemma_anchored_pair(part5, sa, w, 7);
    let part6 = part5 + sa;
    lemma_anchored_pair(part6, role_suffix(), w, 7);
    let part7 = part6 + role_suffix();
    lemma_anchored_pair(part7, ns, w, 7);
    let part8 = part7 + ns;
    lemma_anchored_pair(part8, rules_line(), w, 7);
    assert(part8 + rules_line() == rbac_head(ns, sa));
    let part9 = binding_header();
    lemma_anchored_pair(part9, sa, w, 7);
    let part10 = part9 + sa;
    lemma_anchored_pair(part10, binding_suffix(), w, 7);
    let part11 = part10 + binding_suffix();
    lemma_anchored_pair(part11, ns, w, 7);
    let part12 = part11 + ns;
    lemma_anchored_pair(part12, role_ref(), w, 7);
    let part13 = part12 + role_ref();
    lemma_anchored_pair(part13, sa, w, 7);
    let part14 = part13 + sa;
    lemma_anchored_pair(part14, binding_subject(), w, 7);
    let part15 = part14 + binding_subject();
    lemma_anchored_pair(part15, sa, w, 7);
    let part16 = part15 + sa;
    lemma_anchored_pair(part16, namespace_line(), w, 7);
    let part17 = part16 + namespace_line();
    lemma_anchored_pair(part17, ns, w, 7);
    let part18 = part17 + ns;
    lemma_anchored_pair(part18, line_end(), w, 7);
    assert(part18 + line_end() == rbac_tail(ns, sa));
    let part19 = pods_rule();
    lemma_anchored_pair(part19, optional(false, delete_verb()), w, 7);
    let part20 = part19 + optional(false, delete_verb());
    lemma_anchored_pair(part20, pods_rule_end(), w, 7);
    let part21 = part20 + pods_rule_end();
    lemma_anchored_pair(part21, optional(exec, exec_rule()), w, 7);
    let part22 = part21 + optional(exec, exec_rule());
    lemma_anchored_pair(part22, optional(eph, ephemeral_rule()), w, 7);
    let part23 = part22 + optional(eph, ephemeral_rule());
    lemma_anchored_pair(part23, optional(ev, eviction_rule()), w, 7);
    assert(part23 + optional(ev, eviction_rule()) == rbac_rules(faults));
    lemma_anchored_pair(rbac_head(ns, sa), rbac_rules(faults), w, 7);
    lemma_anchored_pair(rbac_head(ns, sa) + rbac_rules(faults), rbac_tail(ns, sa), w, 7);
}

/// The manifest opens with the ServiceAccount and holds a Role and a
/// RoleBinding; its Role grants `delete` on pods when a crash or eviction
/// fault is chosen, `pods/exec` when a latency, partition, stress or DNS fault
/// is, `pods/ephemeralcontainers` when one of those or debug is, and
/// `pods/eviction` when eviction is (the fault names taken trimmed).
pub proof fn rbac_manifest_grants_needed_permissions(ns: Seq<char>, faults: Seq<Seq<char>>, sa: Seq<char>)
    ensures
        rbac_manifest(ns, faults, sa).take(14) == "apiVersion: v1"@,
        has_infix(rbac_manifest(ns, faults, sa), "kind: ServiceAccount"@),
        has_infix(rbac_manifest(ns, faults, sa), "kind: Role"@),
        has_infix(rbac_manifest(ns, faults, sa), "kind: RoleBinding"@),
        any_fault_in(faults, deleting_faults()) ==> has_infix(rbac_manifest(ns, faults, sa), "\"delete\""@),
        any_fault_in(faults, exec_faults()) ==> has_infix(rbac_manifest(ns, faults, sa), "pods/exec"@),
        any_fault_in(faults, ephemeral_faults()) ==> has_infix(
            rbac_manifest(ns, faults, sa),
            "pods/ephemeralcontainers"@,
        ),
        any_fault_in(faults, eviction_faults()) ==> has_infix(rbac_manifest(ns, faults, sa), "pods/eviction"@),
{
    reveal_strlit("apiVersion: v1\nkind: ServiceAccount\nmetadata:\n  name: ");
    reveal_strlit("apiVersion: v1");
    assert(rbac_manifest(ns, faults, sa).take(14) =~= "apiVersion: v1"@) by {
        assert(rbac_manifest(ns, faults, sa).take(14) =~= service_account_header().take(14));
    }
    reveal_strlit("kind: ServiceAccount");
    assert(service_account_header().subrange(15, 35) =~= "kind: ServiceAccount"@);
    lemma_infix_at(service_account_header(), "kind: ServiceAccount"@, 15);
    lemma_infix_extends("kind: ServiceAccount"@);
    reveal_strlit("\n---\napiVersion: rbac.authorization.k8s.io/v1\nkind: Role\nmetadata:\n  name: ");
    reveal_strlit("kind: Role");
    assert(role_header().subrange(46, 56) =~= "kind: Role"@);
    lemma_infix_at(role_header(), "kind: Role"@, 46);
    lemma_infix_extends("kind: Role"@);
    reveal_strlit("---\napiVersion: rbac.authorization.k8s.io/v1\nkind: RoleBinding\nmetadata:\n  name: ");
    reveal_strlit("kind: RoleBinding");
    assert(binding_header().subrange(45, 62) =~= "kind: RoleBinding"@);
    lemma_infix_at(binding_header(), "kind: RoleBinding"@, 45);
    lemma_infix_extends("kind: RoleBinding"@);
    reveal_strlit(", \"delete\"");
    reveal_strlit("\"delete\"");
    assert(delete_verb().subrange(2, 10) =~= "\"delete\""@);
    lemma_infix_at(delete_verb(), "\"delete\""@, 2);
    lemma_infix_extends("\"delete\""@);
    reveal_strlit("  - apiGroups: [\"\"]\n    resources: [\"pods/exec\"]\n    verbs: [\"create\"]\n");
    reveal_strlit("pods/exec");
    assert(exec_rule().subrange(37, 46) =~= "pods/exec"@);
    lemma_infix_at(exec_rule(), "pods/exec"@, 37);
    lemma_infix_extends("pods/exec"@);
    reveal_strlit("  - apiGroups: [\"\"]\n    resources: [\"pods/ephemeralcontainers\"]\n    verbs: [\"update\"]\n");
    reveal_strlit("pods/ephemeralcontainers");
    assert(ephemeral_rule().subrange(37, 61) =~= "pods/ephemeralcontainers"@);
    lemma_infix_at(ephemeral_rule(), "pods/ephemeralcontainers"@, 37);
    lemma_infix_extends("pods/ephemeralcontainers"@);
    reveal_strlit("  - apiGroups: [\"policy\"]\n    resources: [\"pods/eviction\"]\n    verbs: [\"create\"]\n");
    reveal_strlit("pods/eviction");
    assert(eviction_rule().subrange(43, 56) =~= "pods/eviction"@);
    lemma_infix_at(eviction_rule(), "pods/eviction"@, 43);
    lemma_infix_extends("pods/eviction"@);
}

/// With names that hold neither a slash nor a double quote, the Role grants
/// `delete` on pods, `pods/exec`, `pods/ephemeralcontainers` and
/// `pods/eviction` exactly when the faults call for them (the fault names
/// taken trimmed).
pub proof fn rbac_manifest_grants_only_what_faults_need(
    ns: Seq<char>,
    faults: Seq<Seq<char>>,
    sa: Seq<char>,
)
    requires
        plain_name(ns),
        plain_name(sa),
    ensures
        has_infix(rbac_manifest(ns, faults, sa), "pods/exec"@) <==> any_fault_in(faults, exec_faults()),
        has_infix(rbac_manifest(ns, faults, sa), "pods/ephemeralcontainers"@) <==> any_fault_in(
            faults,
            ephemeral_faults(),
        ),
        has_infix(rbac_manifest(ns, faults, sa), "pods/eviction"@) <==> any_fault_in(faults, eviction_faults()),
        has_infix(rbac_manifest(ns, faults, sa), "\"delete\""@) <==> any_fault_in(faults, deleting_faults()),
{
    rbac_manifest_grants_needed_permissions(ns, faults, sa);
    if !any_fault_in(faults, deleting_faults()) {
        lemma_delete_only_when_needed(ns, faults, sa);
    }
    reveal_strlit("pods/exec");
    reveal_strlit("pods/ephemeralcontainers");
    reveal_strlit("pods/eviction");
    reveal_strlit("\n---\napiVersion: rbac.authorization.k8s.io/v1\nkind: Role\nmetadata:\n  name: ");
    reveal_strlit("---\napiVersion: rbac.authorization.k8s.io/v1\nkind: RoleBinding\nmetadata:\n  name: ");
    reveal_strlit("  - apiGroups: [\"\"]\n    resources: [\"pods/exec\"]\n    verbs: [\"create\"]\n");
    reveal_strlit("  - apiGroups: [\"\"]\n    resources: [\"pods/ephemeralcontainers\"]\n    verbs: [\"update\"]\n");
    reveal_strlit("  - apiGroups: [\"policy\"]\n    resources: [\"pods/eviction\"]\n    verbs: [\"create\"]\n");
    lemma_slashed_pieces("pods/exec"@);
    lemma_slashed_pieces("pods/ephemeralcontainers"@);
    lemma_slashed_pieces("pods/eviction"@);
    reveal_strlit("pods/exec");
    assert(role_header().subrange(38, 47)[0] != "pods/exec"@[0]);
    lemma_piece_with_one(role_header(), "pods/exec"@, 4, 42);
    assert(binding_header().subrange(37, 46)[0] != "pods/exec"@[0]);
    lemma_piece_with_one(binding_header(), "pods/exec"@, 4, 41);
    assert(ephemeral_rule().subrange(37, 46)[6] != "pods/exec"@[6]);
    lemma_piece_with_one(ephemeral_rule(), "pods/exec"@, 4, 41);
    assert(eviction_rule().subrange(43, 52)[6] != "pods/exec"@[6]);
    lemma_piece_with_one(eviction_rule(), "pods/exec"@, 4, 47);
    if has_infix(rbac_manifest(ns, faults, sa), "pods/exec"@) {
        lemma_slashed_word_in_piece(ns, faults, sa, "pods/exec"@);
    }
    reveal_strlit("pods/ephemeralcontainers");
    assert(role_header().subrange(38, 62)[0] != "pods/ephemeralcontainers"@[0]);
    lemma_piece_with_one(role_header(), "pods/ephemeralcontainers"@, 4, 42);
    assert(binding_header().subrange(37, 61)[0] != "pods/ephemeralcontainers"@[0]);
    lemma_piece_with_one(binding_header(), "pods/ephemeralcontainers"@, 4, 41);
    assert(exec_rule().subrange(37, 61)[6] != "pods/ephemeralcontainers"@[6]);
    lemma_piece_with_one(exec_rule(), "pods/ephemeralcontainers"@, 4, 41);
    assert(eviction_rule().subrange(43, 67)[6] != "pods/ephemeralcontainers"@[6]);
    lemma_piece_with_one(eviction_rule(), "pods/ephemeralcontainers"@, 4, 47);
    if has_infix(rbac_manifest(ns, faults, sa), "pods/ephemeralcontainers"@) {
        lemma_slashed_word_in_piece(ns, faults, sa, "pods/ephemeralcontainers"@);
    }
    reveal_strlit("pods/eviction");
    assert(role_header().subrange(38, 51)[0] != "pods/eviction"@[0]);
    lemma_piece_with_one(role_header(), "pods/eviction"@, 4, 42);
    assert(binding_header().subrange(37, 50)[0] != "pods/eviction"@[0]);
    lemma_piece_with_one(binding_header(), "pods/eviction"@, 4, 41);
    assert(exec_rule().subrange(37, 50)[6] != "pods/eviction"@[6]);
    lemma_piece_with_one(exec_rule(), "pods/eviction"@, 4, 41);
    assert(ephemeral_rule().subrange(37, 50)[6] != "pods/eviction"@[6]);
    lemma_piece_with_one(ephemeral_rule(), "pods/eviction"@, 4, 41);
    if has_infix(rbac_manifest(ns, faults, sa), "pods/eviction"@) {
        lemma_slashed_word_in_piece(ns, faults, sa, "pods/eviction"@);
    }
}

/// Whether `t` is one of the literals in `names`.
fn text_in(t: &str, names: &[&str]) -> (b: bool)
    ensures
        b == names@.map_values(|n: &str| n@).contains(t@),
{
    let ghost views = names@.map_values(|n: &str| n@);
    let mut i: usize = 0;
    while i < names.len()
        invariant
            i <= names@.len(),
            views == names@.map_values(|n: &str| n@),
            forall|k: int| 0 <= k < i ==> views[k] != t@,
        decreases names@.len() - i,
    {
        if same_str(t, names[i]) {
            assert(views[i as int] == t@);
            return true;
        }
        i = i + 1;
    }
    false
}

/// Whether some fault, trimmed, is one of `names`.
fn any_in(faults: &[String], names: &[&str]) -> (b: bool)
    ensures
        b == any_fault_in(texts(faults@), names@.map_values(|n: &str| n@)),
{
    let ghost fs = texts(faults@);
    let ghost ns = names@.map_values(|n: &str| n@);
    let mut i: usize = 0;
    while i < faults.len()
        invariant
            i <= faults@.len(),
            fs == texts(faults@),
            ns == names@.map_values(|n: &str| n@),
            forall|k: int| 0 <= k < i ==> !ns.contains(trim(#[trigger] fs[k])),
        decreases faults@.len() - i,
    {
        let t = trim_str(faults[i].as_str());
        assert(t@ == trim(fs[i as int]));
        if text_in(t.as_str(), names) {
            return true;
        }
        i = i + 1;
    }
    false
}

/// Generates the RBAC manifest for service account `service_account_name`
/// in `namespace`, granting what `faults` need.
pub fn generate_rbac(namespace: &str, faults: &[String], service_account_name: &str) -> (y: String)
    ensures
        y@ == rbac_manifest(namespace@, texts(faults@), service_account_name@),
{
    let names_delete: [&str; 2] = ["crash", "eviction"];
    let names_exec: [&str; 4] = ["latency", "partition", "stress", "dns"];
    let names_ephemeral: [&str; 5] = ["latency", "partition", "stress", "dns", "debug"];
    let names_eviction: [&str; 1] = ["eviction"];
    assert(names_delete@.map_values(|n: &str| n@) =~= deleting_faults());
    assert(names_exec@.map_values(|n: &str| n@) =~= exec_faults());
    assert(names_ephemeral@.map_values(|n: &str| n@) =~= ephemeral_faults());
    assert(names_eviction@.map_values(|n: &str| n@) =~= eviction_faults());
    let delete = any_in(faults, &names_delete);
    let exec = any_in(faults, &names_exec);
    let ephemeral = any_in(faults, &names_ephemeral);
    let eviction = any_in(faults, &names_eviction);
    let mut rules = String::new();
    push_str(&mut rules, "  - apiGroups: [\"\"]\n    resources: [\"pods\"]\n    verbs: [\"get\", \"list\"");
    if delete {
        push_str(&mut rules, ", \"delete\"");
    } else {
        push_str(&mut rules, "");
    }
    push_str(&mut rules, "]\n");
    if exec {
        push_str(&mut rules, "  - apiGroups: [\"\"]\n    resources: [\"pods/exec\"]\n    verbs: [\"create\"]\n");
    } else {
        push_str(&mut rules, "");
    }
    if ephemeral {
        push_str(&mut rules, "  - apiGroups: [\"\"]\n    resources: [\"pods/ephemeralcontainers\"]\n    verbs: [\"update\"]\n");
    } else {
        push_str(&mut rules, "");
    }
    if eviction {
        push_str(&mut rules, "  - apiGroups: [\"policy\"]\n    resources: [\"pods/eviction\"]\n    verbs: [\"create\"]\n");
    } else {
        push_str(&mut rules, "");
    }
    assert(rules@ =~= rbac_rules(texts(faults@)));
    let mut y = String::new();
    let mut tail = String::new();
    push_str(&mut y, "apiVersion: v1\nkind: ServiceAccount\nmetadata:\n  name: ");
    push_str(&mut y, service_account_name);
    push_str(&mut y, "\n  namespace: ");
    push_str(&mut y, namespace);
    push_str(&mut y, "\n---\napiVersion: rbac.authorization.k8s.io/v1\nkind: Role\nmetadata:\n  name: ");
    push_str(&mut y, service_account_name);
    push_str(&mut y, "-role\n  namespace: ");
    push_str(&mut y, namespace);
    push_str(&mut y, "\nrules:\n");
    push_str(&mut y, rules.as_str());
    push_str(&mut tail, "---\napiVersion: rbac.authorization.k8s.io/v1\nkind: RoleBinding\nmetadata:\n  name: ");
    push_str(&mut tail, service_account_name);
    push_str(&mut tail, "-binding\n  namespace: ");
    push_str(&mut tail, namespace);
    push_str(&mut tail, "\nroleRef:\n  apiGroup: rbac.authorization.k8s.io\n  kind: Role\n  name: ");
    push_str(&mut tail, service_account_name);
    push_str(&mut tail, "-role\nsubjects:\n- kind: ServiceAccount\n  name: ");
    push_str(&mut tail, service_account_name);
    push_str(&mut tail, "\n  namespace: ");
    push_str(&mut tail, namespace);
    push_str(&mut tail, "\n");
    assert(tail@ =~= rbac_tail(namespace@, service_account_name@));
    push_str(&mut y, tail.as_str());
    y
}

} // verus!
