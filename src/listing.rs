use vstd::prelude::*;
use vstd::seq_lib::*;
use vstd::utf8::{decode_utf8, valid_utf8};

use crate::text::{decode_text, trim, trimmed};

verus! {

/// A path listed by a listing without values.
pub struct ListResult {
    pub key: String,
}

/// A listed path together with the value stored at it.
pub struct ListResultWithValue {
    pub key: String,
    pub value: String,
}

/// The absolute path of a direct child of the root, from its bare name.
pub open spec fn rerooted(name: Seq<char>) -> Seq<char> {
    seq!['/'] + name
}

/// A bare node name: not empty, and without a slash.
pub open spec fn is_bare_name(name: Seq<char>) -> bool {
    name.len() > 0 && !name.contains('/')
}

/// A well-formed absolute path: the root `/`, or a slash-led path with no
/// empty segment and no trailing slash.
pub open spec fn is_node_path(p: Seq<char>) -> bool {
    p == seq!['/'] || (p.len() > 1 && p[0] == '/' && p.last() != '/' && forall|i: int|
        0 <= i < p.len() - 1 && #[trigger] p[i] == '/' ==> p[i + 1] != '/')
}

/// Whether a path names the root once surrounding white space is dropped.
pub open spec fn names_root(path: Seq<char>) -> bool {
    trimmed(path) == seq!['/']
}

/// The views of a sequence of strings.
pub open spec fn names(v: Seq<String>) -> Seq<Seq<char>> {
    v.map_values(|s: String| s@)
}

/// The views of a sequence of listings.
pub open spec fn listings(v: Seq<Vec<String>>) -> Seq<Seq<Seq<char>>> {
    v.map_values(|p: Vec<String>| names(p@))
}

/// The fetches that one listing request starts with.
pub enum ListPlan {
    /// Fetch the direct children of the path.
    Children(String),
    /// Fetch the whole subtree under the path, the path itself first.
    Subtree(String),
    /// Fetch the children of the root, then the subtree of each of them after
    /// re-rooting its bare name.
    EachRootChild(String),
}

/// Chooses how a listing of `root` is fetched, given `trimmed_root`, the text
/// of `root` without surrounding white space.
pub fn plan_list_trimmed(root: &String, trimmed_root: &String, recursive: bool) -> (r: ListPlan)
    ensures
        !recursive ==> (r matches ListPlan::Children(p) && p@ == root@),
        recursive && trimmed_root@ != seq!['/'] ==> (r matches ListPlan::Subtree(p) && p@
            == root@),
        recursive && trimmed_root@ == seq!['/'] ==> (r matches ListPlan::EachRootChild(p) && p@
            == root@),
{
    if !recursive {
        return ListPlan::Children(root.clone());
    }
    proof {
        reveal_strlit("/");
    }
    let slash: String = "/".to_owned();
    assert(slash@ =~= seq!['/']);
    if *trimmed_root == slash {
        ListPlan::EachRootChild(root.clone())
    } else {
        ListPlan::Subtree(root.clone())
    }
}

/// Chooses how a listing of `root` is fetched: the direct children, the whole
/// subtree, or, for the root itself, the subtree of each re-rooted child.
pub fn plan_list(root: &String, recursive: bool) -> (r: ListPlan)
    ensures
        !recursive ==> (r matches ListPlan::Children(p) && p@ == root@),
        recursive && !names_root(root@) ==> (r matches ListPlan::Subtree(p) && p@ == root@),
        recursive && names_root(root@) ==> (r matches ListPlan::EachRootChild(p) && p@ == root@),
{
    let t: String = trim(root.as_str());
    plan_list_trimmed(root, &t, recursive)
}

/// The absolute path of a root child from the bare name that the service gives.
pub fn reroot(name: &String) -> (r: String)
    ensures
        r@ == rerooted(name@),
        is_bare_name(name@) ==> is_node_path(r@),
{
    proof {
        reveal_strlit("/");
    }
    let mut r: String = "/".to_owned();
    assert(r@ =~= seq!['/']);
    r.append(name.as_str());
    proof {
        if is_bare_name(name@) {
            assert(r@.last() == name@.last());
            assert forall|i: int| 0 <= i < r@.len() - 1 && #[trigger] r@[i] == '/' implies r@[i
                + 1] != '/' by {
                assert(r@[i + 1] == name@[i]);
                if name@[i] == '/' {
                    assert(name@.contains('/'));
                }
            }
            if name@.last() == '/' {
                assert(name@.contains('/'));
            }
        }
    }
    r
}

/// Re-roots every bare name of the root's children, in order.
pub fn root_subtree_roots(children: &Vec<String>) -> (r: Vec<String>)
    ensures
        r@.len() == children@.len(),
        forall|i: int| 0 <= i < children@.len() ==> #[trigger] r@[i]@ == rerooted(children@[i]@),
{
    let mut r: Vec<String> = Vec::new();
    let mut i: usize = 0;
    while i < children.len()
        invariant
            i <= children@.len(),
            r@.len() == i,
            forall|k: int| 0 <= k < i ==> #[trigger] r@[k]@ == rerooted(children@[k]@),
        decreases children@.len() - i,
    {
        let p: String = reroot(&children[i]);
        r.push(p);
        i = i + 1;
    }
    r
}

/// Concatenates listings, in order.
pub fn join_listings(parts: &Vec<Vec<String>>) -> (r: Vec<String>)
    ensures
        names(r@) == listings(parts@).flatten(),
{
    let mut r: Vec<String> = Vec::new();
    let mut i: usize = 0;
    proof {
        assert(listings(parts@.subrange(0, 0)) =~= Seq::<Seq<Seq<char>>>::empty());
        assert(names(r@) =~= Seq::<Seq<char>>::empty());
    }
    while i < parts.len()
        invariant
            i <= parts@.len(),
            names(r@) == listings(parts@.subrange(0, i as int)).flatten(),
        decreases parts@.len() - i,
    {
        let part: &Vec<String> = &parts[i];
        let ghost before: Seq<Seq<char>> = names(r@);
        let mut j: usize = 0;
        while j < part.len()
            invariant
                i < parts@.len(),
                *part == parts@[i as int],
                j <= part@.len(),
                names(r@) == before + names(part@.subrange(0, j as int)),
            decreases part@.len() - j,
        {
            let s: String = part[j].clone();
            let ghost prev: Seq<String> = r@;
            r.push(s);
            proof {
                assert(names(r@) =~= names(prev).push(part@[j as int]@));
                assert(names(part@.subrange(0, j + 1)) =~= names(part@.subrange(0, j as int)).push(
                    part@[j as int]@,
                ));
                assert(names(r@) =~= before + names(part@.subrange(0, j + 1)));
            }
            j = j + 1;
        }
        proof {
            assert(part@.subrange(0, j as int) =~= part@);
            let done = listings(parts@.subrange(0, i as int));
            assert(listings(parts@.subrange(0, i + 1)) =~= done.push(names(parts@[i as int]@)));
            done.lemma_flatten_push(names(parts@[i as int]@));
        }
        i = i + 1;
    }
    proof {
        assert(parts@.subrange(0, parts@.len() as int) =~= parts@);
    }
    r
}

/// A path occurs in a concatenation of listings exactly when one of them lists it.
proof fn lemma_flatten_contains(parts: Seq<Seq<Seq<char>>>, p: Seq<char>)
    ensures
        parts.flatten().contains(p) <==> exists|i: int|
            0 <= i < parts.len() && #[trigger] parts[i].contains(p),
    decreases parts.len(),
{
    if parts.len() > 0 {
        let rest = parts.drop_first();
        lemma_flatten_contains(rest, p);
        let flat = parts.flatten();
        assert(flat == parts[0] + rest.flatten());
        if flat.contains(p) {
            let k = choose|k: int| 0 <= k < flat.len() && flat[k] == p;
            if k < parts[0].len() {
                assert(parts[0][k] == p);
                assert(parts[0].contains(p));
            } else {
                assert(rest.flatten()[k - parts[0].len()] == p);
                assert(rest.flatten().contains(p));
                let i = choose|i: int| 0 <= i < rest.len() && #[trigger] rest[i].contains(p);
                assert(parts[i + 1] == rest[i]);
            }
        }
        if exists|i: int| 0 <= i < parts.len() && #[trigger] parts[i].contains(p) {
            let i = choose|i: int| 0 <= i < parts.len() && #[trigger] parts[i].contains(p);
            if i == 0 {
                let k = choose|k: int| 0 <= k < parts[0].len() && parts[0][k] == p;
                assert(flat[k] == p);
            } else {
                assert(rest[i - 1] == parts[i]);
                assert(rest.flatten().contains(p));
                let k = choose|k: int| 0 <= k < rest.flatten().len() && rest.flatten()[k] == p;
                assert(flat[k + parts[0].len()] == p);
            }
        }
    } else {
        assert(parts.flatten() =~= Seq::<Seq<char>>::empty());
    }
}

/// Whether `p` is the absolute path of the `i`-th child of the root, or is
/// listed in that child's subtree listing.
pub open spec fn under_root_child(
    children: Seq<Seq<char>>,
    subtrees: Seq<Seq<Seq<char>>>,
    i: int,
    p: Seq<char>,
) -> bool {
    p == rerooted(children[i]) || subtrees[i].contains(p)
}

/// The recursive listing of the root. Where the subtree listing of each child
/// `C` of the root starts with the child's own absolute path `/C` (as the
/// service's subtree listing does), a path occurs in the joined listing exactly
/// when it is `/C` for some child `C`, or occurs in the subtree listing of `/C`.
pub proof fn lemma_root_listing(
    children: Seq<Seq<char>>,
    subtrees: Seq<Seq<Seq<char>>>,
    p: Seq<char>,
)
    requires
        children.len() == subtrees.len(),
        forall|i: int|
            #![trigger subtrees[i]]
            0 <= i < children.len() ==> subtrees[i].len() > 0 && subtrees[i][0] == rerooted(
                children[i],
            ),
    ensures
        subtrees.flatten().contains(p) <==> exists|i: int|
            0 <= i < children.len() && #[trigger] under_root_child(children, subtrees, i, p),
{
    lemma_flatten_contains(subtrees, p);
    if subtrees.flatten().contains(p) {
        let i = choose|i: int| 0 <= i < subtrees.len() && #[trigger] subtrees[i].contains(p);
        assert(under_root_child(children, subtrees, i, p));
    }
    if exists|i: int| 0 <= i < children.len() && #[trigger] under_root_child(children, subtrees, i, p) {
        let i = choose|i: int|
            0 <= i < children.len() && #[trigger] under_root_child(children, subtrees, i, p);
        assert(subtrees[i].len() > 0);
        if p == rerooted(children[i]) {
            assert(subtrees[i][0] == p);
        }
        assert(subtrees[i].contains(p));
    }
}

/// Why a listed path could not be given its value.
#[derive(Clone, Copy, Debug, PartialEq, Eq, Structural)]
pub enum HydrationCause {
    /// The value could not be fetched.
    Unreadable,
    /// The value is not UTF-8 text.
    NotText,
}

/// A listed path whose value could not be given, and why.
pub struct HydrationError {
    pub path: String,
    pub cause: HydrationCause,
}

/// Whether a fetched value can be shown as text.
pub open spec fn shows_as_text(v: Option<Vec<u8>>) -> bool {
    v matches Some(b) && valid_utf8(b@)
}

/// Why a fetched value cannot be shown as text.
pub open spec fn failure_of(v: Option<Vec<u8>>) -> HydrationCause {
    if v is None {
        HydrationCause::Unreadable
    } else {
        HydrationCause::NotText
    }
}

/// Whether a row holds `key` and the text that `value` encodes.
pub open spec fn row_holds(row: ListResultWithValue, key: String, value: Option<Vec<u8>>) -> bool {
    row.key@ == key@ && row.value@ == decode_utf8(value->0@)
}

/// Pairs each listed path with its fetched value, in order. `values[i]` is the
/// value fetched for `keys[i]`, or `None` where the fetch failed. The first
/// path whose value is missing or not text aborts the whole batch.
pub fn hydrate(keys: &Vec<String>, values: &Vec<Option<Vec<u8>>>) -> (r: Result<
    Vec<ListResultWithValue>,
    HydrationError,
>)
    requires
        keys@.len() == values@.len(),
    ensures
        r is Ok <==> forall|i: int| 0 <= i < values@.len() ==> #[trigger] shows_as_text(values@[i]),
        r matches Ok(rows) ==> rows@.len() == keys@.len() && forall|i: int|
            0 <= i < keys@.len() ==> #[trigger] row_holds(rows@[i], keys@[i], values@[i]),
        r matches Err(e) ==> exists|i: int|
            0 <= i < keys@.len() && !#[trigger] shows_as_text(values@[i]) && (forall|k: int|
                0 <= k < i ==> shows_as_text(values@[k])) && e.path@ == keys@[i]@ && e.cause
                == failure_of(values@[i]),
{
    let mut rows: Vec<ListResultWithValue> = Vec::new();
    let mut i: usize = 0;
    while i < keys.len()
        invariant
            keys@.len() == values@.len(),
            i <= keys@.len(),
            rows@.len() == i,
            forall|k: int| 0 <= k < i ==> #[trigger] shows_as_text(values@[k]),
            forall|k: int| 0 <= k < i ==> #[trigger] row_holds(rows@[k], keys@[k], values@[k]),
        decreases keys@.len() - i,
    {
        match &values[i] {
            None => {
                assert(!shows_as_text(values@[i as int]));
                return Err(HydrationError { path: keys[i].clone(), cause: HydrationCause::Unreadable });
            },
            Some(bytes) => {
                match decode_text(bytes.as_slice()) {
                    None => {
                        assert(!shows_as_text(values@[i as int]));
                        return Err(
                            HydrationError { path: keys[i].clone(), cause: HydrationCause::NotText },
                        );
                    },
                    Some(value) => {
                        let ghost prev: Seq<ListResultWithValue> = rows@;
                        rows.push(ListResultWithValue { key: keys[i].clone(), value });
                        assert(shows_as_text(values@[i as int]));
                        assert(row_holds(rows@[i as int], keys@[i as int], values@[i as int]));
                        assert(forall|k: int| 0 <= k < i ==> rows@[k] == prev[k]);
                    },
                }
            },
        }
        i = i + 1;
    }
    Ok(rows)
}

} // verus!
