//! Ordering the models offered to the user: models whose files are in the
//! Hugging Face cache come first, in the order given, then the others.
use vstd::prelude::*;
use crate::text::{chars_of, push_char};

verus! {

/// A model and whether its files are in the local cache.
#[derive(Clone, Debug)]
pub struct ModelEntry {
    pub model: String,
    pub installed: bool,
}

pub open spec fn is_installed() -> spec_fn(ModelEntry) -> bool {
    |e: ModelEntry| e.installed
}

pub open spec fn is_missing() -> spec_fn(ModelEntry) -> bool {
    |e: ModelEntry| !e.installed
}

/// The entries with the installed ones first; within each group the order
/// of `s` is kept (a stable sort that puts `installed == true` first).
pub open spec fn installed_first(s: Seq<ModelEntry>) -> Seq<ModelEntry> {
    s.filter(is_installed()) + s.filter(is_missing())
}

fn copy_entry(e: &ModelEntry) -> (r: ModelEntry)
    ensures
        r == *e,
{
    ModelEntry { model: e.model.clone(), installed: e.installed }
}

/// Puts the installed entries first, keeping the order within each group.
pub fn sort_model_entries(entries: &mut Vec<ModelEntry>)
    ensures
        final(entries)@ == installed_first(old(entries)@),
{
    let ghost s = entries@;
    let n = entries.len();
    let mut front: Vec<ModelEntry> = Vec::new();
    let mut back: Vec<ModelEntry> = Vec::new();
    let mut i: usize = 0;
    while i < n
        invariant
            entries@ == s,
            n == s.len(),
            i <= n,
            front@ == s.take(i as int).filter(is_installed()),
            back@ == s.take(i as int).filter(is_missing()),
        decreases n - i,
    {
        let e = copy_entry(&entries[i]);
        proof {
            assert(s.take(i + 1).drop_last() =~= s.take(i as int));
            assert(s.take(i + 1).last() == s[i as int]);
            reveal_with_fuel(Seq::filter, 1);
        }
        if e.installed {
            front.push(e);
        } else {
            back.push(e);
        }
        i = i + 1;
    }
    assert(s.take(n as int) =~= s);
    front.append(&mut back);
    *entries = front;
}

proof fn lemma_filter_to_multiset(s: Seq<ModelEntry>)
    ensures
        installed_first(s).to_multiset() =~= s.to_multiset(),
    decreases s.len(),
{
    broadcast use vstd::seq_lib::group_to_multiset_ensures;
    broadcast use vstd::multiset::group_multiset_axioms;
    reveal_with_fuel(Seq::filter, 1);
    if s.len() > 0 {
        let t = s.drop_last();
        let x = s.last();
        lemma_filter_to_multiset(t);
        assert(s =~= t.push(x));
        let a = t.filter(is_installed());
        let b = t.filter(is_missing());
        vstd::seq_lib::lemma_multiset_commutative(a, b);
        if x.installed {
            vstd::seq_lib::lemma_multiset_commutative(a.push(x), b);
        } else {
            vstd::seq_lib::lemma_multiset_commutative(a, b.push(x));
        }
    } else {
        assert(installed_first(s) =~= s);
    }
}

proof fn lemma_filter_all(s: Seq<ModelEntry>, p: spec_fn(ModelEntry) -> bool)
    requires
        forall|i: int| 0 <= i < s.len() ==> p(#[trigger] s[i]),
    ensures
        s.filter(p) == s,
    decreases s.len(),
{
    reveal_with_fuel(Seq::filter, 1);
    if s.len() > 0 {
        lemma_filter_all(s.drop_last(), p);
        assert(s.drop_last().push(s.last()) =~= s);
    }
}

proof fn lemma_filter_none(s: Seq<ModelEntry>, p: spec_fn(ModelEntry) -> bool)
    requires
        forall|i: int| 0 <= i < s.len() ==> !p(#[trigger] s[i]),
    ensures
        s.filter(p) == Seq::<ModelEntry>::empty(),
    decreases s.len(),
{
    reveal_with_fuel(Seq::filter, 1);
    if s.len() > 0 {
        lemma_filter_none(s.drop_last(), p);
    }
}

/// Law: ordering keeps each group in the order given, so the installed
/// entries (and the others) come out exactly as they were listed.
pub proof fn lemma_installed_first_is_stable(s: Seq<ModelEntry>)
    ensures
        installed_first(s).filter(is_installed()) == s.filter(is_installed()),
        installed_first(s).filter(is_missing()) == s.filter(is_missing()),
{
    broadcast use vstd::seq_lib::group_filter_ensures;
    let a = s.filter(is_installed());
    let b = s.filter(is_missing());
    Seq::filter_distributes_over_add(a, b, is_installed());
    Seq::filter_distributes_over_add(a, b, is_missing());
    assert forall|i: int| 0 <= i < a.len() implies is_installed()(#[trigger] a[i]) by {
        s.lemma_filter_pred(is_installed(), i);
    }
    assert forall|i: int| 0 <= i < b.len() implies is_missing()(#[trigger] b[i]) by {
        s.lemma_filter_pred(is_missing(), i);
    }
    lemma_filter_all(a, is_installed());
    lemma_filter_none(b, is_installed());
    lemma_filter_none(a, is_missing());
    lemma_filter_all(b, is_missing());
    assert(a + Seq::<ModelEntry>::empty() =~= a);
    assert(Seq::<ModelEntry>::empty() + b =~= b);
}

/// Law: ordering only rearranges the entries (the same entries, each as
/// often), and no entry that is not installed comes before an installed one.
pub proof fn lemma_installed_first_sorts(s: Seq<ModelEntry>)
    ensures
        installed_first(s).to_multiset() == s.to_multiset(),
        installed_first(s).len() == s.len(),
        forall|i: int, j: int|
            0 <= i < j < installed_first(s).len() && (#[trigger] installed_first(s)[j]).installed
                ==> (#[trigger] installed_first(s)[i]).installed,
{
    broadcast use vstd::seq_lib::group_to_multiset_ensures;
    lemma_filter_to_multiset(s);
    let a = s.filter(is_installed());
    let b = s.filter(is_missing());
    let r = installed_first(s);
    assert(s.to_multiset().len() == s.len());
    assert(r.to_multiset().len() == r.len());
    assert forall|i: int, j: int|
        0 <= i < j < r.len() && (#[trigger] r[j]).installed implies (#[trigger] r[i]).installed by {
        if i >= a.len() {
            s.lemma_filter_pred(is_missing(), j - a.len());
            assert(r[j] == b[j - a.len()]);
        } else {
            s.lemma_filter_pred(is_installed(), i);
            assert(r[i] == a[i]);
        }
    }
}

/// Law: ordering twice gives the same as ordering once.
pub proof fn lemma_installed_first_idempotent(s: Seq<ModelEntry>)
    ensures
        installed_first(installed_first(s)) == installed_first(s),
{
    lemma_installed_first_is_stable(s);
}


/// `s` with every `/` written as `--`.
pub open spec fn replace_slashes(s: Seq<char>) -> Seq<char>
    decreases s.len(),
{
    if s.len() == 0 {
        Seq::empty()
    } else {
        replace_slashes(s.drop_last()) + if s.last() == '/' {
            seq!['-', '-']
        } else {
            seq![s.last()]
        }
    }
}

/// The name of the cache directory that holds the repository `model`:
/// `models--` followed by the repository name with each `/` written as `--`.
pub open spec fn repo_cache_dir_name_spec(model: Seq<char>) -> Seq<char> {
    "models--"@ + replace_slashes(model)
}

/// The cache directory name of the repository `model`.
pub fn repo_cache_dir_name(model: &str) -> (r: String)
    ensures
        r@ == repo_cache_dir_name_spec(model@),
{
    let s = chars_of(model);
    let mut r = "models--".to_owned();
    let ghost start = r@;
    let mut i: usize = 0;
    while i < s.len()
        invariant
            i <= s.len(),
            start == "models--"@,
            r@ == start + replace_slashes(s@.take(i as int)),
        decreases s.len() - i,
    {
        proof {
            assert(s@.take(i + 1).drop_last() =~= s@.take(i as int));
            assert(s@.take(i + 1).last() == s@[i as int]);
        }
        if s[i] == '/' {
            push_char(&mut r, '-');
            push_char(&mut r, '-');
            assert(r@ =~= start + replace_slashes(s@.take(i + 1)));
        } else {
            push_char(&mut r, s[i]);
            assert(r@ =~= start + replace_slashes(s@.take(i + 1)));
        }
        i = i + 1;
    }
    assert(s@.take(s@.len() as int) =~= s@);
    r
}

proof fn lemma_replace_slashes_no_slash(s: Seq<char>)
    ensures
        !replace_slashes(s).contains('/'),
    decreases s.len(),
{
    if s.len() > 0 {
        lemma_replace_slashes_no_slash(s.drop_last());
        let a = replace_slashes(s.drop_last());
        let b = if s.last() == '/' {
            seq!['-', '-']
        } else {
            seq![s.last()]
        };
        assert forall|i: int| 0 <= i < (a + b).len() implies (a + b)[i] != '/' by {
            if i < a.len() {
                assert((a + b)[i] == a[i]);
            } else {
                assert((a + b)[i] == b[i - a.len()]);
            }
        }
    }
}

/// Law: a cache directory name is a single path component: it holds no `/`.
pub proof fn lemma_repo_cache_dir_name_is_component(model: Seq<char>)
    ensures
        !repo_cache_dir_name_spec(model).contains('/'),
        repo_cache_dir_name_spec(model).len() >= 8,
{
    reveal_strlit("models--");
    lemma_replace_slashes_no_slash(model);
    let a = "models--"@;
    let b = replace_slashes(model);
    assert forall|i: int| 0 <= i < (a + b).len() implies (a + b)[i] != '/' by {
        if i < a.len() {
            assert((a + b)[i] == a[i]);
        } else {
            assert((a + b)[i] == b[i - a.len()]);
        }
    }
}

/// The path `base` extended by the relative component `component`, as
/// `Path::join` forms it on Unix: a `/` is put between them unless `base` is
/// empty or already ends with `/`.
pub open spec fn join_path(base: Seq<char>, component: Seq<char>) -> Seq<char> {
    if base.len() == 0 {
        component
    } else if base.last() == '/' {
        base + component
    } else {
        base + "/"@ + component
    }
}

/// `base` extended by the relative component `component`.
pub fn join_path_exec(base: &str, component: &str) -> (r: String)
    ensures
        r@ == join_path(base@, component@),
{
    let b = chars_of(base);
    if b.len() == 0 {
        component.to_owned()
    } else if b[b.len() - 1] == '/' {
        let mut r = base.to_owned();
        r.append(component);
        r
    } else {
        let mut r = base.to_owned();
        r.append("/");
        r.append(component);
        r
    }
}

/// The directory whose entries show that `model` is in the cache under `root`.
pub open spec fn snapshot_dir_spec(root: Seq<char>, model: Seq<char>) -> Seq<char> {
    join_path(join_path(root, repo_cache_dir_name_spec(model)), "snapshots"@)
}

/// The snapshots directory of `model` in the cache `root`.
pub fn snapshot_dir(root: &str, model: &str) -> (r: String)
    ensures
        r@ == snapshot_dir_spec(root@, model@),
{
    let dir = repo_cache_dir_name(model);
    let repo = join_path_exec(root, dir.as_str());
    join_path_exec(repo.as_str(), "snapshots")
}

/// The cache directories to look in, in this order: `HUGGINGFACE_HUB_CACHE`
/// as given, `HF_HOME/hub`, `XDG_CACHE_HOME/huggingface/hub`, and
/// `HOME/.cache/huggingface/hub`, each only when its variable is set.
pub open spec fn cache_roots_spec(
    hub_cache: Option<Seq<char>>,
    hf_home: Option<Seq<char>>,
    xdg_cache_home: Option<Seq<char>>,
    home: Option<Seq<char>>,
) -> Seq<Seq<char>> {
    let a = match hub_cache {
        Some(p) => seq![p],
        None => seq![],
    };
    let b = match hf_home {
        Some(p) => seq![join_path(p, "hub"@)],
        None => seq![],
    };
    let c = match xdg_cache_home {
        Some(p) => seq![join_path(join_path(p, "huggingface"@), "hub"@)],
        None => seq![],
    };
    let d = match home {
        Some(p) => seq![join_path(join_path(join_path(p, ".cache"@), "huggingface"@), "hub"@)],
        None => seq![],
    };
    a + b + c + d
}

pub open spec fn opt_text(o: Option<String>) -> Option<Seq<char>> {
    match o {
        Some(s) => Some(s@),
        None => None,
    }
}

pub open spec fn texts(v: Seq<String>) -> Seq<Seq<char>> {
    v.map_values(|s: String| s@)
}

/// The cache directories to look in, given the values of the variables
/// `HUGGINGFACE_HUB_CACHE`, `HF_HOME`, `XDG_CACHE_HOME` and `HOME`.
pub fn cache_roots(
    hub_cache: Option<String>,
    hf_home: Option<String>,
    xdg_cache_home: Option<String>,
    home: Option<String>,
) -> (r: Vec<String>)
    ensures
        texts(r@) == cache_roots_spec(
            opt_text(hub_cache),
            opt_text(hf_home),
            opt_text(xdg_cache_home),
            opt_text(home),
        ),
{
    let ghost (ga, gb, gc, gd) = (
        opt_text(hub_cache),
        opt_text(hf_home),
        opt_text(xdg_cache_home),
        opt_text(home),
    );
    let mut roots: Vec<String> = Vec::new();
    if let Some(p) = hub_cache {
        roots.push(p);
    }
    assert(texts(roots@) =~= cache_roots_spec(ga, None, None, None));
    if let Some(p) = hf_home {
        roots.push(join_path_exec(p.as_str(), "hub"));
    }
    assert(texts(roots@) =~= cache_roots_spec(ga, gb, None, None));
    if let Some(p) = xdg_cache_home {
        let hf = join_path_exec(p.as_str(), "huggingface");
        roots.push(join_path_exec(hf.as_str(), "hub"));
    }
    assert(texts(roots@) =~= cache_roots_spec(ga, gb, gc, None));
    if let Some(p) = home {
        let cache = join_path_exec(p.as_str(), ".cache");
        let hf = join_path_exec(cache.as_str(), "huggingface");
        roots.push(join_path_exec(hf.as_str(), "hub"));
    }
    assert(texts(roots@) =~= cache_roots_spec(ga, gb, gc, gd));
    roots
}

/// Whether `model` is in the cache: the snapshots directory of `model` under
/// one of `roots` is among `populated`, the directories known to exist and
/// to hold at least one entry.
pub open spec fn model_is_installed_spec(
    model: Seq<char>,
    roots: Seq<Seq<char>>,
    populated: Seq<Seq<char>>,
) -> bool {
    exists|j: int| 0 <= j < roots.len() && populated.contains(snapshot_dir_spec(roots[j], model))
}

fn contains_text(list: &Vec<String>, t: &String) -> (r: bool)
    ensures
        r == texts(list@).contains(t@),
{
    let mut i: usize = 0;
    while i < list.len()
        invariant
            i <= list.len(),
            forall|k: int| 0 <= k < i ==> list@[k]@ != t@,
        decreases list.len() - i,
    {
        if list[i] == *t {
            assert(texts(list@)[i as int] == t@);
            return true;
        }
        i = i + 1;
    }
    assert forall|k: int| 0 <= k < texts(list@).len() implies texts(list@)[k] != t@ by {
        assert(texts(list@)[k] == list@[k]@);
    }
    false
}

/// Whether `model` is in the cache under one of `roots`, given `populated`,
/// the snapshots directories that exist and hold at least one entry.
pub fn model_is_installed(model: &str, roots: &Vec<String>, populated: &Vec<String>) -> (r: bool)
    ensures
        r == model_is_installed_spec(model@, texts(roots@), texts(populated@)),
{
    let mut j: usize = 0;
    while j < roots.len()
        invariant
            j <= roots.len(),
            forall|k: int|
                0 <= k < j ==> !texts(populated@).contains(
                    snapshot_dir_spec(#[trigger] texts(roots@)[k], model@),
                ),
        decreases roots.len() - j,
    {
        let dir = snapshot_dir(roots[j].as_str(), model);
        assert(texts(roots@)[j as int] == roots@[j as int]@);
        if contains_text(populated, &dir) {
            return true;
        }
        j = j + 1;
    }
    false
}

/// Law: a model whose snapshots directory is populated under any one of the
/// roots counts as installed, wherever that root stands in the list.
pub proof fn lemma_installed_under_any_root(
    model: Seq<char>,
    roots: Seq<Seq<char>>,
    populated: Seq<Seq<char>>,
    j: int,
)
    requires
        0 <= j < roots.len(),
        populated.contains(snapshot_dir_spec(roots[j], model)),
    ensures
        model_is_installed_spec(model, roots, populated),
{
}

/// Law: with no roots, or with no populated directory, no model is installed.
pub proof fn lemma_nothing_installed_without_cache(
    model: Seq<char>,
    roots: Seq<Seq<char>>,
    populated: Seq<Seq<char>>,
)
    ensures
        roots.len() == 0 ==> !model_is_installed_spec(model, roots, populated),
        populated.len() == 0 ==> !model_is_installed_spec(model, roots, populated),
{
}

/// Law: adding cache roots, before or after the others, never turns an
/// installed model into a missing one; nor does learning of more populated
/// directories.
pub proof fn lemma_more_roots_keep_installed(
    model: Seq<char>,
    roots: Seq<Seq<char>>,
    extra: Seq<Seq<char>>,
    populated: Seq<Seq<char>>,
    more: Seq<Seq<char>>,
)
    requires
        model_is_installed_spec(model, roots, populated),
    ensures
        model_is_installed_spec(model, roots + extra, populated),
        model_is_installed_spec(model, extra + roots, populated),
        model_is_installed_spec(model, roots, populated + more),
{
    let j = choose|j: int|
        0 <= j < roots.len() && populated.contains(snapshot_dir_spec(roots[j], model));
    assert((roots + extra)[j] == roots[j]);
    assert((extra + roots)[extra.len() + j] == roots[j]);
    let k = choose|k: int| 0 <= k < populated.len() && populated[k] == snapshot_dir_spec(roots[j], model);
    assert((populated + more)[k] == populated[k]);
}

/// The entries of `models`, each marked installed or not, before ordering.
pub open spec fn model_entries(
    models: Seq<String>,
    roots: Seq<Seq<char>>,
    populated: Seq<Seq<char>>,
) -> Seq<ModelEntry> {
    Seq::new(
        models.len(),
        |i: int|
            ModelEntry {
                model: models[i],
                installed: model_is_installed_spec(models[i]@, roots, populated),
            },
    )
}

/// The models, installed ones first and otherwise in the given order.
pub fn ordered_models(models: &Vec<String>, roots: &Vec<String>, populated: &Vec<String>) -> (r: Vec<
    ModelEntry,
>)
    ensures
        r@ == installed_first(model_entries(models@, texts(roots@), texts(populated@))),
{
    let ghost expected = model_entries(models@, texts(roots@), texts(populated@));
    let mut entries: Vec<ModelEntry> = Vec::new();
    let mut i: usize = 0;
    while i < models.len()
        invariant
            i <= models.len(),
            expected == model_entries(models@, texts(roots@), texts(populated@)),
            entries@ == expected.take(i as int),
        decreases models.len() - i,
    {
        let installed = model_is_installed(models[i].as_str(), roots, populated);
        entries.push(ModelEntry { model: models[i].clone(), installed });
        assert(entries@ =~= expected.take(i + 1));
        i = i + 1;
    }
    assert(expected.take(models@.len() as int) =~= expected);
    sort_model_entries(&mut entries);
    entries
}

/// How an entry is listed: the model name, followed by ` (installed)` when
/// its files are in the cache.
pub fn model_display(entry: &ModelEntry) -> (r: String)
    ensures
        r@ == if entry.installed {
            entry.model@ + " (installed)"@
        } else {
            entry.model@
        },
{
    let mut r = entry.model.clone();
    if entry.installed {
        r.append(" (installed)");
    }
    r
}

/// An entry as the picker lists it: the text shown, the model returned
/// when it is chosen, and whether it is highlighted (installed models are).
pub struct ModelItem {
    pub display: String,
    pub value: String,
    pub highlighted: bool,
}

/// The picker items for `entries`, in the same order.
pub fn model_items(entries: &Vec<ModelEntry>) -> (r: Vec<ModelItem>)
    ensures
        r@.len() == entries@.len(),
        forall|i: int|
            0 <= i < entries@.len() ==> {
                let e = #[trigger] entries@[i];
                &&& r@[i].display@ == (if e.installed {
                    e.model@ + " (installed)"@
                } else {
                    e.model@
                })
                &&& r@[i].value@ == e.model@
                &&& r@[i].highlighted == e.installed
            },
{
    let mut items: Vec<ModelItem> = Vec::new();
    let mut i: usize = 0;
    while i < entries.len()
        invariant
            i <= entries@.len(),
            items@.len() == i,
            forall|k: int|
                0 <= k < i ==> {
                    let e = #[trigger] entries@[k];
                    &&& items@[k].display@ == (if e.installed {
                        e.model@ + " (installed)"@
                    } else {
                        e.model@
                    })
                    &&& items@[k].value@ == e.model@
                    &&& items@[k].highlighted == e.installed
                },
        decreases entries@.len() - i,
    {
        let e = &entries[i];
        let item = ModelItem {
            display: model_display(e),
            value: e.model.clone(),
            highlighted: e.installed,
        };
        items.push(item);
        i = i + 1;
    }
    items
}

} // verus!
