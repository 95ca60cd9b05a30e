use vstd::prelude::*;

use crate::text::{
    lemma_join_mentions_part, lemma_mentions_append, lemma_mentions_prepend, lemma_mentions_self,
    mentions, seq_join,
};

verus! {

/// The URL of a package artifact:
/// `<api_url>/artifactory/<repo>/<ident parts joined by '/'>/<target parts joined by '/'>/<hart>`.
pub open spec fn artifact_url(
    api_url: Seq<char>,
    repo: Seq<char>,
    ident_parts: Seq<Seq<char>>,
    target_parts: Seq<Seq<char>>,
    hart_name: Seq<char>,
) -> Seq<char> {
    api_url + "/artifactory/"@ + repo + "/"@ + seq_join(ident_parts, "/"@) + "/"@ + seq_join(
        target_parts,
        "/"@,
    ) + "/"@ + hart_name
}

/// The part of an artifact URL that names the repository, common to all the
/// artifacts of one client: `<api_url>/artifactory/<repo>/`.
pub open spec fn repo_prefix(api_url: Seq<char>, repo: Seq<char>) -> Seq<char> {
    api_url + "/artifactory/"@ + repo + "/"@
}

/// The part of an artifact URL that names the artifact:
/// `<ident parts>/<target parts>/<hart>`.
pub open spec fn artifact_path(
    ident_parts: Seq<Seq<char>>,
    target_parts: Seq<Seq<char>>,
    hart_name: Seq<char>,
) -> Seq<char> {
    seq_join(ident_parts, "/"@) + "/"@ + seq_join(target_parts, "/"@) + "/"@ + hart_name
}

/// Whether `text` holds no `/`.
pub open spec fn slash_free(text: Seq<char>) -> bool {
    forall|k: int| 0 <= k < text.len() ==> text[k] != '/'
}

/// Whether no part holds a `/`.
pub open spec fn parts_slash_free(parts: Seq<Seq<char>>) -> bool {
    forall|k: int| 0 <= k < parts.len() ==> slash_free(#[trigger] parts[k])
}

proof fn lemma_slash()
    ensures
        "/"@ == seq!['/'],
{
    reveal_strlit("/");
}

proof fn lemma_url_is_prefix_then_path(
    api_url: Seq<char>,
    repo: Seq<char>,
    ident_parts: Seq<Seq<char>>,
    target_parts: Seq<Seq<char>>,
    hart_name: Seq<char>,
)
    ensures
        artifact_url(api_url, repo, ident_parts, target_parts, hart_name) == repo_prefix(
            api_url,
            repo,
        ) + artifact_path(ident_parts, target_parts, hart_name),
{
    assert(artifact_url(api_url, repo, ident_parts, target_parts, hart_name) =~= repo_prefix(
        api_url,
        repo,
    ) + artifact_path(ident_parts, target_parts, hart_name));
}

/// Two texts that end in `/` followed by a slash-free tail are equal only
/// when their heads and their tails are.
proof fn lemma_split_at_last_slash(r1: Seq<char>, u1: Seq<char>, r2: Seq<char>, u2: Seq<char>)
    requires
        slash_free(u1),
        slash_free(u2),
        r1 + seq!['/'] + u1 == r2 + seq!['/'] + u2,
    ensures
        r1 == r2,
        u1 == u2,
{
    let x = r1 + seq!['/'] + u1;
    let y = r2 + seq!['/'] + u2;
    assert(x.len() == y.len());
    if u1.len() < u2.len() {
        let p = x.len() - 1 - u1.len();
        assert(x[p] == '/');
        assert(y[p] == u2[u2.len() - 1 - u1.len()]);
        assert(false);
    }
    if u2.len() < u1.len() {
        let p = y.len() - 1 - u2.len();
        assert(y[p] == '/');
        assert(x[p] == u1[u1.len() - 1 - u2.len()]);
        assert(false);
    }
    assert(r1 =~= x.subrange(0, r1.len() as int));
    assert(r2 =~= y.subrange(0, r2.len() as int));
    assert(u1 =~= x.subrange(r1.len() as int + 1, x.len() as int));
    assert(u2 =~= y.subrange(r2.len() as int + 1, y.len() as int));
}

/// With as many slash-free parts on each side, `p1/<join a>` equals
/// `p2/<join b>` only when `p1` equals `p2` and `a` equals `b`.
proof fn lemma_join_after_slash(p1: Seq<char>, a: Seq<Seq<char>>, p2: Seq<char>, b: Seq<Seq<char>>)
    requires
        a.len() == b.len(),
        parts_slash_free(a),
        parts_slash_free(b),
        p1 + seq!['/'] + seq_join(a, seq!['/']) == p2 + seq!['/'] + seq_join(b, seq!['/']),
    ensures
        p1 == p2,
        a == b,
    decreases a.len(),
{
    let s = seq!['/'];
    if a.len() == 0 {
        assert(p1 + s =~= p1 + s + seq_join(a, s));
        assert(p2 + s =~= p2 + s + seq_join(b, s));
        assert(p1 =~= (p1 + s).subrange(0, p1.len() as int));
        assert(p2 =~= (p2 + s).subrange(0, p2.len() as int));
        assert(a =~= b);
    } else if a.len() == 1 {
        assert(parts_slash_free(a) ==> slash_free(a[0]));
        assert(parts_slash_free(b) ==> slash_free(b[0]));
        lemma_split_at_last_slash(p1, a[0], p2, b[0]);
        assert(a =~= b);
    } else {
        let a1 = a.drop_last();
        let b1 = b.drop_last();
        assert(slash_free(a[a.len() - 1]));
        assert(slash_free(b[b.len() - 1]));
        assert(p1 + s + seq_join(a, s) =~= (p1 + s + seq_join(a1, s)) + s + a.last());
        assert(p2 + s + seq_join(b, s) =~= (p2 + s + seq_join(b1, s)) + s + b.last());
        lemma_split_at_last_slash(p1 + s + seq_join(a1, s), a.last(), p2 + s + seq_join(b1, s), b.last());
        assert forall|k: int| 0 <= k < a1.len() implies slash_free(#[trigger] a1[k]) by {
            assert(a1[k] == a[k]);
        }
        assert forall|k: int| 0 <= k < b1.len() implies slash_free(#[trigger] b1[k]) by {
            assert(b1[k] == b[k]);
        }
        lemma_join_after_slash(p1, a1, p2, b1);
        assert(a =~= a1.push(a.last()));
        assert(b =~= b1.push(b.last()));
    }
}

/// Joining as many slash-free parts with `/` gives equal texts only for
/// equal parts.
proof fn lemma_join_injective(a: Seq<Seq<char>>, b: Seq<Seq<char>>)
    requires
        a.len() == b.len(),
        parts_slash_free(a),
        parts_slash_free(b),
        seq_join(a, seq!['/']) == seq_join(b, seq!['/']),
    ensures
        a == b,
    decreases a.len(),
{
    let s = seq!['/'];
    if a.len() <= 1 {
        assert(a =~= b);
    } else {
        let a1 = a.drop_last();
        let b1 = b.drop_last();
        assert(slash_free(a[a.len() - 1]));
        assert(slash_free(b[b.len() - 1]));
        lemma_split_at_last_slash(seq_join(a1, s), a.last(), seq_join(b1, s), b.last());
        assert forall|k: int| 0 <= k < a1.len() implies slash_free(#[trigger] a1[k]) by {
            assert(a1[k] == a[k]);
        }
        assert forall|k: int| 0 <= k < b1.len() implies slash_free(#[trigger] b1[k]) by {
            assert(b1[k] == b[k]);
        }
        lemma_join_injective(a1, b1);
        assert(a =~= a1.push(a.last()));
        assert(b =~= b1.push(b.last()));
    }
}

/// Distinct artifacts of one client never share a URL: where no part of the
/// package identities or targets and no archive name holds a `/`, and the
/// two identities have as many parts as each other, as do the two targets
/// (a fully qualified identity has four, a target two), equal URLs come
/// only from equal identities, targets and archive names.
pub proof fn lemma_artifact_url_injective(
    api_url: Seq<char>,
    repo: Seq<char>,
    ident1: Seq<Seq<char>>,
    target1: Seq<Seq<char>>,
    hart1: Seq<char>,
    ident2: Seq<Seq<char>>,
    target2: Seq<Seq<char>>,
    hart2: Seq<char>,
)
    requires
        ident1.len() == ident2.len(),
        target1.len() == target2.len(),
        parts_slash_free(ident1),
        parts_slash_free(ident2),
        parts_slash_free(target1),
        parts_slash_free(target2),
        slash_free(hart1),
        slash_free(hart2),
        artifact_url(api_url, repo, ident1, target1, hart1) == artifact_url(
            api_url,
            repo,
            ident2,
            target2,
            hart2,
        ),
    ensures
        ident1 == ident2,
        target1 == target2,
        hart1 == hart2,
{
    let s = seq!['/'];
    lemma_slash();
    lemma_url_is_prefix_then_path(api_url, repo, ident1, target1, hart1);
    lemma_url_is_prefix_then_path(api_url, repo, ident2, target2, hart2);
    let prefix = repo_prefix(api_url, repo);
    let path1 = artifact_path(ident1, target1, hart1);
    let path2 = artifact_path(ident2, target2, hart2);
    assert(path1 =~= (prefix + path1).subrange(prefix.len() as int, (prefix + path1).len() as int));
    assert(path2 =~= (prefix + path2).subrange(prefix.len() as int, (prefix + path2).len() as int));
    let j1 = seq_join(ident1, s);
    let j2 = seq_join(ident2, s);
    lemma_split_at_last_slash(j1 + s + seq_join(target1, s), hart1, j2 + s + seq_join(target2, s), hart2);
    lemma_join_after_slash(j1, target1, j2, target2);
    lemma_join_injective(ident1, ident2);
}

proof fn lemma_url_starts_with_api_url(
    api_url: Seq<char>,
    repo: Seq<char>,
    ident_parts: Seq<Seq<char>>,
    target_parts: Seq<Seq<char>>,
    hart_name: Seq<char>,
)
    ensures
        artifact_url(api_url, repo, ident_parts, target_parts, hart_name).subrange(
            0,
            api_url.len() as int,
        ) == api_url,
{
    let url = artifact_url(api_url, repo, ident_parts, target_parts, hart_name);
    let rest = "/artifactory/"@ + repo + "/"@ + artifact_path(ident_parts, target_parts, hart_name);
    assert(url =~= api_url + rest);
    assert(url.subrange(0, api_url.len() as int) =~= api_url);
}

proof fn lemma_url_mentions_repo(
    api_url: Seq<char>,
    repo: Seq<char>,
    ident_parts: Seq<Seq<char>>,
    target_parts: Seq<Seq<char>>,
    hart_name: Seq<char>,
)
    ensures
        mentions(artifact_url(api_url, repo, ident_parts, target_parts, hart_name), repo),
{
    let url = artifact_url(api_url, repo, ident_parts, target_parts, hart_name);
    let before = api_url + "/artifactory/"@;
    let after = "/"@ + artifact_path(ident_parts, target_parts, hart_name);
    assert(url =~= before + (repo + after));
    lemma_mentions_self(repo);
    lemma_mentions_append(repo, after, repo);
    lemma_mentions_prepend(before, repo + after, repo);
}

proof fn lemma_url_mentions_hart(
    api_url: Seq<char>,
    repo: Seq<char>,
    ident_parts: Seq<Seq<char>>,
    target_parts: Seq<Seq<char>>,
    hart_name: Seq<char>,
)
    ensures
        mentions(artifact_url(api_url, repo, ident_parts, target_parts, hart_name), hart_name),
{
    let url = artifact_url(api_url, repo, ident_parts, target_parts, hart_name);
    let before = repo_prefix(api_url, repo) + seq_join(ident_parts, "/"@) + "/"@ + seq_join(
        target_parts,
        "/"@,
    ) + "/"@;
    assert(url =~= before + hart_name);
    lemma_mentions_self(hart_name);
    lemma_mentions_prepend(before, hart_name, hart_name);
}

proof fn lemma_url_mentions_ident_part(
    api_url: Seq<char>,
    repo: Seq<char>,
    ident_parts: Seq<Seq<char>>,
    target_parts: Seq<Seq<char>>,
    hart_name: Seq<char>,
    k: int,
)
    requires
        0 <= k < ident_parts.len(),
    ensures
        mentions(artifact_url(api_url, repo, ident_parts, target_parts, hart_name), ident_parts[k]),
{
    let url = artifact_url(api_url, repo, ident_parts, target_parts, hart_name);
    let joined = seq_join(ident_parts, "/"@);
    let before = repo_prefix(api_url, repo);
    let after = "/"@ + seq_join(target_parts, "/"@) + "/"@ + hart_name;
    assert(url =~= before + (joined + after));
    lemma_join_mentions_part(ident_parts, "/"@, k);
    lemma_mentions_append(joined, after, ident_parts[k]);
    lemma_mentions_prepend(before, joined + after, ident_parts[k]);
}

proof fn lemma_url_mentions_target_part(
    api_url: Seq<char>,
    repo: Seq<char>,
    ident_parts: Seq<Seq<char>>,
    target_parts: Seq<Seq<char>>,
    hart_name: Seq<char>,
    k: int,
)
    requires
        0 <= k < target_parts.len(),
    ensures
        mentions(artifact_url(api_url, repo, ident_parts, target_parts, hart_name), target_parts[k]),
{
    let url = artifact_url(api_url, repo, ident_parts, target_parts, hart_name);
    let joined = seq_join(target_parts, "/"@);
    let before = repo_prefix(api_url, repo) + seq_join(ident_parts, "/"@) + "/"@;
    let after = "/"@ + hart_name;
    assert(url =~= before + (joined + after));
    lemma_join_mentions_part(target_parts, "/"@, k);
    lemma_mentions_append(joined, after, target_parts[k]);
    lemma_mentions_prepend(before, joined + after, target_parts[k]);
}

/// The URL of an artifact holds the repository, every part of the package
/// identity, every part of the target and the archive's file name, and it
/// starts with the API URL.
pub proof fn lemma_artifact_url_holds_parts(
    api_url: Seq<char>,
    repo: Seq<char>,
    ident_parts: Seq<Seq<char>>,
    target_parts: Seq<Seq<char>>,
    hart_name: Seq<char>,
)
    ensures
        ({
            let url = artifact_url(api_url, repo, ident_parts, target_parts, hart_name);
            &&& url.subrange(0, api_url.len() as int) == api_url
            &&& mentions(url, repo)
            &&& mentions(url, hart_name)
            &&& forall|k: int| 0 <= k < ident_parts.len() ==> mentions(url, #[trigger] ident_parts[k])
            &&& forall|k: int| 0 <= k < target_parts.len() ==> mentions(url, #[trigger] target_parts[k])
        }),
{
    lemma_url_starts_with_api_url(api_url, repo, ident_parts, target_parts, hart_name);
    lemma_url_mentions_repo(api_url, repo, ident_parts, target_parts, hart_name);
    lemma_url_mentions_hart(api_url, repo, ident_parts, target_parts, hart_name);
    assert forall|k: int| 0 <= k < ident_parts.len() implies mentions(
        artifact_url(api_url, repo, ident_parts, target_parts, hart_name),
        #[trigger] ident_parts[k],
    ) by {
        lemma_url_mentions_ident_part(api_url, repo, ident_parts, target_parts, hart_name, k);
    }
    assert forall|k: int| 0 <= k < target_parts.len() implies mentions(
        artifact_url(api_url, repo, ident_parts, target_parts, hart_name),
        #[trigger] target_parts[k],
    ) by {
        lemma_url_mentions_target_part(api_url, repo, ident_parts, target_parts, hart_name, k);
    }
}

} // verus!
