//! Orders: names by their characters, paths by their components.

use vstd::prelude::*;
use crate::listing;
use crate::paths;
use crate::text;
use crate::types::ProjectEntry;

verus! {

/// Whether `a` comes before `b` in the order of a dictionary.
pub open spec fn before(a: Seq<u32>, b: Seq<u32>) -> bool {
    exists|k: int| #[trigger] before_at(a, b, k)
}

/// Whether `a` and `b` agree on the first `k` places, and at place `k` either `a` has ended or its
/// entry is the smaller.
pub open spec fn before_at(a: Seq<u32>, b: Seq<u32>, k: int) -> bool {
    &&& 0 <= k <= a.len()
    &&& k < b.len()
    &&& a.take(k) == b.take(k)
    &&& k == a.len() || a[k] < b[k]
}

/// Nothing comes before itself.
pub proof fn lemma_before_irreflexive(a: Seq<u32>)
    ensures
        !before(a, a),
{
}

/// The order is transitive.
pub proof fn lemma_before_transitive(a: Seq<u32>, b: Seq<u32>, c: Seq<u32>)
    requires
        before(a, b),
        before(b, c),
    ensures
        before(a, c),
{
    let i = choose|k: int| before_at(a, b, k);
    let j = choose|k: int| before_at(b, c, k);
    let k = if i < j { i } else { j };
    assert(a.take(k) == a.take(i).take(k));
    assert(b.take(k) == b.take(i).take(k));
    assert(b.take(k) == b.take(j).take(k));
    assert(c.take(k) == c.take(j).take(k));
    if i < j {
        assert(b.take(j)[i] == c.take(j)[i]);
    } else if j < i {
        assert(a.take(i)[j] == b.take(i)[j]);
    }
    assert(before_at(a, c, k));
}

proof fn lemma_before_from(a: Seq<u32>, b: Seq<u32>, k: int)
    requires
        0 <= k <= a.len(),
        k <= b.len(),
        a.take(k) == b.take(k),
    ensures
        before(a, b) || before(b, a) || a == b,
    decreases a.len() - k,
{
    if k == a.len() && k == b.len() {
        assert(a.take(k) == a && b.take(k) == b);
    } else if k == a.len() {
        assert(before_at(a, b, k));
    } else if k == b.len() {
        assert(before_at(b, a, k));
    } else if a[k] < b[k] {
        assert(before_at(a, b, k));
    } else if b[k] < a[k] {
        assert(before_at(b, a, k));
    } else {
        assert(a.take(k + 1) == a.take(k).push(a[k]));
        assert(b.take(k + 1) == b.take(k).push(b[k]));
        lemma_before_from(a, b, k + 1);
    }
}

/// Of two different texts one comes before the other.
pub proof fn lemma_before_total(a: Seq<u32>, b: Seq<u32>)
    ensures
        before(a, b) || before(b, a) || a == b,
{
    assert(a.take(0) == b.take(0));
    lemma_before_from(a, b, 0);
}

/// Whether `a` comes before `b` in the order of a dictionary.
fn is_before(a: &Vec<u32>, b: &Vec<u32>) -> (r: bool)
    ensures
        r == before(a@, b@),
{
    let mut k: usize = 0;
    assert(a@.take(0) == b@.take(0));
    while k < a.len() && k < b.len() && a[k] == b[k]
        invariant
            k <= a@.len(),
            k <= b@.len(),
            a@.take(k as int) == b@.take(k as int),
        decreases a@.len() - k,
    {
        assert(a@.take(k + 1) == a@.take(k as int).push(a@[k as int]));
        assert(b@.take(k + 1) == b@.take(k as int).push(b@[k as int]));
        k = k + 1;
    }
    let r = k < b.len() && (k == a.len() || a[k] < b[k]);
    proof {
        if r {
            assert(before_at(a@, b@, k as int));
        } else if before(a@, b@) {
            if k == b@.len() && k == a@.len() {
                assert(a@.take(k as int) == a@ && b@.take(k as int) == b@);
                lemma_before_irreflexive(a@);
            } else {
                assert(before_at(b@, a@, k as int));
                lemma_before_transitive(a@, b@, a@);
                lemma_before_irreflexive(a@);
            }
        }
    }
    r
}

proof fn lemma_code_injective(c: char, d: char)
    requires
        c as u32 == d as u32,
    ensures
        c == d,
{
}

/// The code points of a text.
pub open spec fn name_codes(s: Seq<char>) -> Seq<u32> {
    Seq::new(s.len(), |i: int| s[i] as u32)
}

/// Whether the name `a` comes before the name `b`.
pub open spec fn name_before(a: Seq<char>, b: Seq<char>) -> bool {
    before(name_codes(a), name_codes(b))
}

/// The place of a component's kind: the root, `.`, `..`, and then the names.
pub open spec fn kind_code(component: Seq<char>) -> u32 {
    if component == "/"@ {
        0
    } else if component == "."@ {
        1
    } else if component == ".."@ {
        2
    } else {
        3
    }
}

/// A component as it is ordered: by its kind, then by its code points.
pub open spec fn component_codes(component: Seq<char>) -> Seq<u32> {
    seq![kind_code(component)] + name_codes(component)
}

/// Components as they are ordered: one after the other.
pub open spec fn path_codes(components: Seq<Seq<char>>) -> Seq<Seq<u32>> {
    Seq::new(components.len(), |i: int| component_codes(components[i]))
}

/// Whether `a` comes before `b` component by component.
pub open spec fn list_before(a: Seq<Seq<u32>>, b: Seq<Seq<u32>>) -> bool {
    exists|k: int| #[trigger] list_before_at(a, b, k)
}

/// Whether `a` and `b` agree on the first `k` places, and at place `k` either `a` has ended or its
/// entry comes first.
pub open spec fn list_before_at(a: Seq<Seq<u32>>, b: Seq<Seq<u32>>, k: int) -> bool {
    &&& 0 <= k <= a.len()
    &&& k < b.len()
    &&& a.take(k) == b.take(k)
    &&& k == a.len() || before(a[k], b[k])
}

/// Nothing comes before itself.
pub proof fn lemma_list_before_irreflexive(a: Seq<Seq<u32>>)
    ensures
        !list_before(a, a),
{
    if list_before(a, a) {
        let k = choose|k: int| list_before_at(a, a, k);
        lemma_before_irreflexive(a[k]);
    }
}

/// The order is transitive.
pub proof fn lemma_list_before_transitive(a: Seq<Seq<u32>>, b: Seq<Seq<u32>>, c: Seq<Seq<u32>>)
    requires
        list_before(a, b),
        list_before(b, c),
    ensures
        list_before(a, c),
{
    let i = choose|k: int| list_before_at(a, b, k);
    let j = choose|k: int| list_before_at(b, c, k);
    let k = if i < j { i } else { j };
    assert(a.take(k) == a.take(i).take(k));
    assert(b.take(k) == b.take(i).take(k));
    assert(b.take(k) == b.take(j).take(k));
    assert(c.take(k) == c.take(j).take(k));
    if i < j {
        assert(b.take(j)[i] == c.take(j)[i]);
    } else if j < i {
        assert(a.take(i)[j] == b.take(i)[j]);
    } else if k < a.len() {
        lemma_before_transitive(a[k], b[k], c[k]);
    }
    assert(list_before_at(a, c, k));
}

proof fn lemma_list_before_from(a: Seq<Seq<u32>>, b: Seq<Seq<u32>>, k: int)
    requires
        0 <= k <= a.len(),
        k <= b.len(),
        a.take(k) == b.take(k),
    ensures
        list_before(a, b) || list_before(b, a) || a == b,
    decreases a.len() - k,
{
    if k == a.len() && k == b.len() {
        assert(a.take(k) == a && b.take(k) == b);
    } else if k == a.len() {
        assert(list_before_at(a, b, k));
    } else if k == b.len() {
        assert(list_before_at(b, a, k));
    } else {
        lemma_before_total(a[k], b[k]);
        if before(a[k], b[k]) {
            assert(list_before_at(a, b, k));
        } else if before(b[k], a[k]) {
            assert(list_before_at(b, a, k));
        } else {
            assert(a.take(k + 1) == a.take(k).push(a[k]));
            assert(b.take(k + 1) == b.take(k).push(b[k]));
            lemma_list_before_from(a, b, k + 1);
        }
    }
}

/// Of two different lists one comes before the other.
pub proof fn lemma_list_before_total(a: Seq<Seq<u32>>, b: Seq<Seq<u32>>)
    ensures
        list_before(a, b) || list_before(b, a) || a == b,
{
    assert(a.take(0) == b.take(0));
    lemma_list_before_from(a, b, 0);
}

/// The order of names.
pub open spec fn name_order() -> spec_fn(Seq<char>, Seq<char>) -> bool {
    |a: Seq<char>, b: Seq<char>| name_before(a, b)
}

/// The order of paths, by their components.
pub open spec fn path_order() -> spec_fn(Seq<Seq<char>>, Seq<Seq<char>>) -> bool {
    |a: Seq<Seq<char>>, b: Seq<Seq<char>>| list_before(path_codes(a), path_codes(b))
}

/// Whether the path `a` comes before the path `b`.
pub open spec fn path_before(a: Seq<char>, b: Seq<char>) -> bool {
    path_order()(paths::components(a), paths::components(b))
}

/// Whether the name `a` comes before the name `b`.
pub fn is_name_before(a: &str, b: &str) -> (r: bool)
    ensures
        r == name_before(a@, b@),
{
    let x = codes_of_name(a);
    let y = codes_of_name(b);
    is_before(&x, &y)
}

fn codes_of_name(s: &str) -> (r: Vec<u32>)
    ensures
        r@ == name_codes(s@),
{
    let chars = text::to_chars(s);
    let mut r: Vec<u32> = Vec::new();
    let mut i: usize = 0;
    while i < chars.len()
        invariant
            i <= chars@.len(),
            r@ == name_codes(chars@).take(i as int),
        decreases chars@.len() - i,
    {
        r.push(chars[i] as u32);
        i = i + 1;
    }
    r
}

/// A component as it is ordered.
fn codes_of_component(component: &str) -> (r: Vec<u32>)
    ensures
        r@ == component_codes(component@),
{
    let kind: u32 = if text::same_text(component, "/") {
        0
    } else if text::same_text(component, ".") {
        1
    } else if text::same_text(component, "..") {
        2
    } else {
        3
    };
    let mut r: Vec<u32> = Vec::new();
    r.push(kind);
    let mut codes = codes_of_name(component);
    r.append(&mut codes);
    assert(r@ =~= component_codes(component@));
    r
}

/// Whether the path `a` comes before the path `b`.
pub fn is_path_before(a: &str, b: &str) -> (r: bool)
    ensures
        r == path_before(a@, b@),
{
    let x = paths::components_of(a);
    let y = paths::components_of(b);
    let ghost p = path_codes(paths::components(a@));
    let ghost q = path_codes(paths::components(b@));
    proof {
        assert(paths::components(a@).len() == x@.len());
        assert(paths::components(b@).len() == y@.len());
        assert(p.take(0) == q.take(0));
    }
    let mut k: usize = 0;
    while k < x.len() && k < y.len() && x[k] == y[k]
        invariant
            k <= x@.len(),
            k <= y@.len(),
            paths::readings(x@) == paths::components(a@),
            paths::readings(y@) == paths::components(b@),
            p == path_codes(paths::components(a@)),
            q == path_codes(paths::components(b@)),
            p.len() == x@.len(),
            q.len() == y@.len(),
            p.take(k as int) == q.take(k as int),
        decreases x@.len() - k,
    {
        proof {
            assert(paths::readings(x@)[k as int] == x@[k as int]@);
            assert(paths::readings(y@)[k as int] == y@[k as int]@);
            assert(p[k as int] == q[k as int]);
            assert(p.take(k + 1) == p.take(k as int).push(p[k as int]));
            assert(q.take(k + 1) == q.take(k as int).push(q[k as int]));
        }
        k = k + 1;
    }
    if k == y.len() {
        proof {
            if k == x@.len() {
                assert(p.take(k as int) == p && q.take(k as int) == q);
            } else {
                assert(list_before_at(q, p, k as int));
            }
            lemma_not_before(p, q);
        }
        return false;
    }
    if k == x.len() {
        assert(list_before_at(p, q, k as int));
        return true;
    }
    let m = codes_of_component(x[k].as_str());
    let n = codes_of_component(y[k].as_str());
    proof {
        assert(paths::readings(x@)[k as int] == x@[k as int]@);
        assert(paths::readings(y@)[k as int] == y@[k as int]@);
        assert(p[k as int] == m@ && q[k as int] == n@);
        lemma_before_total(m@, n@);
        if m@ == n@ {
            lemma_component_codes_injective(x@[k as int]@, y@[k as int]@);
        }
    }
    let r = is_before(&m, &n);
    proof {
        if r {
            assert(list_before_at(p, q, k as int));
        } else {
            assert(list_before_at(q, p, k as int));
            lemma_not_before(p, q);
        }
    }
    r
}

/// What comes after a list, or is the same, does not come before it.
proof fn lemma_not_before(a: Seq<Seq<u32>>, b: Seq<Seq<u32>>)
    requires
        list_before(b, a) || a == b,
    ensures
        !list_before(a, b),
{
    lemma_list_before_irreflexive(a);
    if list_before(b, a) && list_before(a, b) {
        lemma_list_before_transitive(a, b, a);
    }
}

/// Different names have different codes.
pub proof fn lemma_name_codes_injective(a: Seq<char>, b: Seq<char>)
    requires
        name_codes(a) == name_codes(b),
    ensures
        a == b,
{
    assert(a.len() == name_codes(a).len());
    assert(b.len() == name_codes(b).len());
    assert forall|i: int| 0 <= i < a.len() implies a[i] == b[i] by {
        assert(name_codes(a)[i] == a[i] as u32);
        assert(name_codes(b)[i] == b[i] as u32);
        lemma_code_injective(a[i], b[i]);
    }
    assert(a =~= b);
}

/// Different components have different codes.
proof fn lemma_component_codes_injective(a: Seq<char>, b: Seq<char>)
    requires
        component_codes(a) == component_codes(b),
    ensures
        a == b,
{
    assert(component_codes(a).skip(1) =~= name_codes(a));
    assert(component_codes(b).skip(1) =~= name_codes(b));
    lemma_name_codes_injective(a, b);
}

/// Different paths have different codes.
proof fn lemma_path_codes_injective(a: Seq<Seq<char>>, b: Seq<Seq<char>>)
    requires
        path_codes(a) == path_codes(b),
    ensures
        a == b,
{
    assert(a.len() == path_codes(a).len());
    assert(b.len() == path_codes(b).len());
    assert forall|i: int| 0 <= i < a.len() implies a[i] == b[i] by {
        assert(path_codes(a)[i] == component_codes(a[i]));
        assert(path_codes(b)[i] == component_codes(b[i]));
        lemma_component_codes_injective(a[i], b[i]);
    }
    assert(a =~= b);
}

/// Names are ordered strictly.
pub proof fn lemma_name_order()
    ensures
        listing::strict_order(name_order()),
{
    let less = name_order();
    assert forall|a: Seq<char>| !(#[trigger] less(a, a)) by {
        lemma_before_irreflexive(name_codes(a));
    }
    assert forall|a: Seq<char>, b: Seq<char>, c: Seq<char>| #[trigger]
        less(a, b) && #[trigger] less(b, c) implies less(a, c) by {
        lemma_before_transitive(name_codes(a), name_codes(b), name_codes(c));
    }
    assert forall|a: Seq<char>, b: Seq<char>| #[trigger] less(a, b) || less(b, a) || a == b by {
        lemma_before_total(name_codes(a), name_codes(b));
        if name_codes(a) == name_codes(b) {
            lemma_name_codes_injective(a, b);
        }
    }
}

/// Paths are ordered strictly.
pub proof fn lemma_path_order()
    ensures
        listing::strict_order(path_order()),
{
    let less = path_order();
    assert forall|a: Seq<Seq<char>>| !(#[trigger] less(a, a)) by {
        lemma_list_before_irreflexive(path_codes(a));
    }
    assert forall|a: Seq<Seq<char>>, b: Seq<Seq<char>>, c: Seq<Seq<char>>| #[trigger]
        less(a, b) && #[trigger] less(b, c) implies less(a, c) by {
        lemma_list_before_transitive(path_codes(a), path_codes(b), path_codes(c));
    }
    assert forall|a: Seq<Seq<char>>, b: Seq<Seq<char>>| #[trigger]
        less(a, b) || less(b, a) || a == b by {
        lemma_list_before_total(path_codes(a), path_codes(b));
        if path_codes(a) == path_codes(b) {
            lemma_path_codes_injective(a, b);
        }
    }
}

/// Whether a text is among `texts`.
pub open spec fn among(texts: Seq<String>, text: Seq<char>) -> bool {
    exists|i: int| 0 <= i < texts.len() && (#[trigger] texts[i])@ == text
}

/// Whether a text is among `texts`.
pub fn is_among(texts: &Vec<String>, text: &str) -> (r: bool)
    ensures
        r == among(texts@, text@),
{
    let mut i: usize = 0;
    while i < texts.len()
        invariant
            i <= texts@.len(),
            forall|j: int| 0 <= j < i ==> (#[trigger] texts@[j])@ != text@,
        decreases texts@.len() - i,
    {
        if text::same_text(texts[i].as_str(), text) {
            return true;
        }
        i = i + 1;
    }
    false
}

/// The components of a path.
pub open spec fn path_key() -> spec_fn(String) -> Seq<Seq<char>> {
    |path: String| paths::components(path@)
}

/// The roots of the projects.
pub open spec fn roots_of(projects: Seq<ProjectEntry>) -> Seq<String> {
    Seq::new(projects.len(), |i: int| projects[i].path)
}

/// Whether `roots` lists the roots of the projects: in ascending order and each path once, as the
/// project that came first of those with that root spells it.
pub open spec fn lists_roots(projects: Seq<ProjectEntry>, roots: Seq<String>) -> bool {
    listing::lists(roots_of(projects), path_key(), path_order(), roots)
}

/// Puts a project's root in its place, unless it is there.
fn insert_root(roots: &mut Vec<String>, projects: &Vec<ProjectEntry>, n: usize)
    requires
        n < projects@.len(),
        listing::lists_first(
            roots_of(projects@),
            n as nat,
            path_key(),
            path_order(),
            old(roots)@,
        ),
    ensures
        listing::lists_first(
            roots_of(projects@),
            (n + 1) as nat,
            path_key(),
            path_order(),
            final(roots)@,
        ),
{
    let path = &projects[n].path;
    let ghost all = roots_of(projects@);
    let ghost key = path_key();
    let ghost less = path_order();
    let mut p: usize = 0;
    while p < roots.len() && is_path_before(roots[p].as_str(), path.as_str())
        invariant
            p <= roots@.len(),
            roots@ == old(roots)@,
            key == path_key(),
            less == path_order(),
            forall|j: int| 0 <= j < p ==> less(key(#[trigger] roots@[j]), key(*path)),
        decreases roots@.len() - p,
    {
        p = p + 1;
    }
    assert(n < projects.len());
    assert(all[n as int] == *path);
    if p < roots.len() && paths::is_same_path(roots[p].as_str(), path.as_str()) {
        proof {
            listing::lemma_listed(all, n as nat, key, less, roots@, p as int);
        }
        return;
    }
    proof {
        lemma_path_order();
        listing::lemma_insert(all, n as nat, key, less, roots@, p as int);
    }
    roots.insert(p, path.clone());
}

/// The roots of the projects in ascending order, each path once.
pub fn sorted_roots(projects: &Vec<ProjectEntry>) -> (r: Vec<String>)
    ensures
        lists_roots(projects@, r@),
{
    let mut r: Vec<String> = Vec::new();
    let mut i: usize = 0;
    while i < projects.len()
        invariant
            i <= projects@.len(),
            listing::lists_first(
                roots_of(projects@),
                i as nat,
                path_key(),
                path_order(),
                r@,
            ),
        decreases projects@.len() - i,
    {
        insert_root(&mut r, projects, i);
        i = i + 1;
    }
    r
}

/// The list of the roots is determined by the projects: two such lists are the same, and no path
/// stands in one twice, in whichever spelling.
pub proof fn law_roots_are_determined(
    projects: Seq<ProjectEntry>,
    a: Seq<String>,
    b: Seq<String>,
)
    requires
        projects.len() <= usize::MAX,
        lists_roots(projects, a),
        lists_roots(projects, b),
    ensures
        a == b,
        forall|i: int, j: int|
            0 <= i < j < a.len() ==> !paths::same_path(
                (#[trigger] a[i])@,
                (#[trigger] a[j])@,
            ),
{
    lemma_path_order();
    listing::law_listing_is_unique(roots_of(projects), path_key(), path_order(), a, b);
    assert forall|i: int, j: int| 0 <= i < j < a.len() implies !paths::same_path(
        (#[trigger] a[i])@,
        (#[trigger] a[j])@,
    ) by {
        assert(path_key()(a[i]) != path_key()(a[j]));
    }
}

proof fn lemma_code_order(c: char, d: char)
    ensures
        c < d <==> (c as u32) < (d as u32),
{
}

/// Names are ordered by their characters: one comes before another where it ends first, or has the
/// smaller character at the first place where they differ.
pub proof fn law_names_are_ordered_by_characters(a: Seq<char>, b: Seq<char>)
    ensures
        name_before(a, b) <==> exists|k: int|
            {
                &&& 0 <= k <= a.len()
                &&& k < b.len()
                &&& #[trigger] a.take(k) == b.take(k)
                &&& k == a.len() || a[k] < b[k]
            },
{
    let x = name_codes(a);
    let y = name_codes(b);
    if name_before(a, b) {
        let k = choose|k: int| before_at(x, y, k);
        assert(name_codes(a.take(k)) =~= x.take(k));
        assert(name_codes(b.take(k)) =~= y.take(k));
        lemma_name_codes_injective(a.take(k), b.take(k));
        if k < a.len() {
            lemma_code_order(a[k], b[k]);
        }
        assert(a.take(k) == b.take(k));
    }
    if exists|k: int|
        {
            &&& 0 <= k <= a.len()
            &&& k < b.len()
            &&& #[trigger] a.take(k) == b.take(k)
            &&& k == a.len() || a[k] < b[k]
        } {
        let k = choose|k: int|
            {
                &&& 0 <= k <= a.len()
                &&& k < b.len()
                &&& #[trigger] a.take(k) == b.take(k)
                &&& k == a.len() || a[k] < b[k]
            };
        assert(name_codes(a.take(k)) =~= x.take(k));
        assert(name_codes(b.take(k)) =~= y.take(k));
        if k < a.len() {
            lemma_code_order(a[k], b[k]);
        }
        assert(before_at(x, y, k));
    }
}

/// Whether one component comes before another: the root comes first, then `.`, then `..`, and then the
/// names in their order.
pub open spec fn component_before(a: Seq<char>, b: Seq<char>) -> bool {
    before(component_codes(a), component_codes(b))
}

/// The root comes before every other component, `.` before all but the root, `..` before all names,
/// and names go by their own order; of two components no more than one comes before the other.
pub proof fn law_components_are_ordered_by_kind(a: Seq<char>, b: Seq<char>)
    ensures
        a == "/"@ && b != "/"@ ==> component_before(a, b),
        a == "."@ && b != "/"@ && b != "."@ ==> component_before(a, b),
        a == ".."@ && b != "/"@ && b != "."@ && b != ".."@ ==> component_before(a, b),
        a != "/"@ && a != "."@ && a != ".."@ && b != "/"@ && b != "."@ && b != ".."@ ==> (
        component_before(a, b) <==> name_before(a, b)),
        !(component_before(a, b) && component_before(b, a)),
{
    reveal_strlit("/");
    reveal_strlit(".");
    reveal_strlit("..");
    let x = component_codes(a);
    let y = component_codes(b);
    assert(x[0] == kind_code(a) && y[0] == kind_code(b));
    assert(x.take(0) == y.take(0));
    if "."@ == "/"@ {
        assert("."@[0] == "/"@[0]);
    }
    if ".."@ == "/"@ {
        assert(".."@.len() == "/"@.len());
    }
    if ".."@ == "."@ {
        assert(".."@.len() == "."@.len());
    }
    if x[0] < y[0] {
        assert(before_at(x, y, 0));
    }
    if x[0] == y[0] {
        let p = name_codes(a);
        let q = name_codes(b);
        assert(x.skip(1) =~= p && y.skip(1) =~= q);
        if before(p, q) {
            let k = choose|k: int| before_at(p, q, k);
            assert(x.take(k + 1) =~= x.take(1) + p.take(k));
            assert(y.take(k + 1) =~= y.take(1) + q.take(k));
            assert(x.take(1) =~= y.take(1));
            assert(before_at(x, y, k + 1));
        }
        if before(x, y) {
            let k = choose|k: int| before_at(x, y, k);
            assert(k > 0);
            assert(p.take(k - 1) =~= x.take(k).skip(1));
            assert(q.take(k - 1) =~= y.take(k).skip(1));
            assert(before_at(p, q, k - 1));
        }
    }
    if component_before(a, b) && component_before(b, a) {
        lemma_before_transitive(x, y, x);
        lemma_before_irreflexive(x);
    }
}

/// Paths are ordered by their components: one comes before another where it ends first, or has the
/// earlier component at the first place where they differ.
pub proof fn law_paths_are_ordered_by_components(a: Seq<char>, b: Seq<char>)
    ensures
        ({
            let x = paths::components(a);
            let y = paths::components(b);
            path_before(a, b) <==> exists|k: int|
                {
                    &&& 0 <= k <= x.len()
                    &&& k < y.len()
                    &&& #[trigger] x.take(k) == y.take(k)
                    &&& k == x.len() || component_before(x[k], y[k])
                }
        }),
{
    let x = paths::components(a);
    let y = paths::components(b);
    let p = path_codes(x);
    let q = path_codes(y);
    if path_before(a, b) {
        let k = choose|k: int| list_before_at(p, q, k);
        assert(path_codes(x.take(k)) =~= p.take(k));
        assert(path_codes(y.take(k)) =~= q.take(k));
        lemma_path_codes_injective(x.take(k), y.take(k));
    }
    if exists|k: int|
        {
            &&& 0 <= k <= x.len()
            &&& k < y.len()
            &&& #[trigger] x.take(k) == y.take(k)
            &&& k == x.len() || component_before(x[k], y[k])
        } {
        let k = choose|k: int|
            {
                &&& 0 <= k <= x.len()
                &&& k < y.len()
                &&& #[trigger] x.take(k) == y.take(k)
                &&& k == x.len() || component_before(x[k], y[k])
            };
        assert(path_codes(x.take(k)) =~= p.take(k));
        assert(path_codes(y.take(k)) =~= q.take(k));
        assert(list_before_at(p, q, k));
    }
}

/// One text more is among the texts, and nothing else is that was not; among none there is none.
pub proof fn law_among_one_more(texts: Seq<String>, more: String, text: Seq<char>)
    ensures
        !among(Seq::empty(), text),
        among(texts.push(more), text) <==> among(texts, text) || more@ == text,
{
    let all = texts.push(more);
    if among(texts, text) {
        let i = choose|i: int| 0 <= i < texts.len() && (#[trigger] texts[i])@ == text;
        assert(all[i]@ == text);
    }
    if more@ == text {
        assert(all[texts.len() as int]@ == text);
    }
    if among(all, text) {
        let i = choose|i: int| 0 <= i < all.len() && (#[trigger] all[i])@ == text;
        if i < texts.len() {
            assert(texts[i]@ == text);
        }
    }
}

/// The list of the roots holds the root of every project and nothing else, in the order of paths; where
/// projects spell one root differently, the first of them is followed.
pub proof fn law_every_root_is_listed(projects: Seq<ProjectEntry>, roots: Seq<String>)
    requires
        projects.len() <= usize::MAX,
        lists_roots(projects, roots),
    ensures
        forall|j: int, k: int|
            0 <= j < k < roots.len() ==> path_before((#[trigger] roots[j])@, (#[trigger] roots[k])@),
        forall|i: int|
            0 <= i < projects.len() ==> exists|k: int|
                0 <= k < roots.len() && paths::same_path(
                    (#[trigger] roots[k])@,
                    (#[trigger] projects[i]).path@,
                ),
        forall|k: int|
            0 <= k < roots.len() ==> exists|i: int|
                {
                    &&& 0 <= i < projects.len()
                    &&& (#[trigger] projects[i]).path == (#[trigger] roots[k])
                    &&& forall|j: int|
                        0 <= j < i ==> !paths::same_path(
                            (#[trigger] projects[j]).path@,
                            roots[k]@,
                        )
                },
{
    let all = roots_of(projects);
    let key = path_key();
    assert forall|j: int, k: int| 0 <= j < k < roots.len() implies path_before(
        (#[trigger] roots[j])@,
        (#[trigger] roots[k])@,
    ) by {
        assert(path_order()(key(roots[j]), key(roots[k])));
    }
    assert forall|i: int| 0 <= i < projects.len() implies exists|k: int|
        0 <= k < roots.len() && paths::same_path(
            (#[trigger] roots[k])@,
            (#[trigger] projects[i]).path@,
        ) by {
        assert(all[i] == projects[i].path);
        let k = choose|k: int| 0 <= k < roots.len() && key(roots[k]) == key(#[trigger] all[i]);
        assert(paths::same_path(roots[k]@, projects[i].path@));
    }
    assert forall|k: int| 0 <= k < roots.len() implies exists|i: int|
        {
            &&& 0 <= i < projects.len()
            &&& (#[trigger] projects[i]).path == (#[trigger] roots[k])
            &&& forall|j: int|
                0 <= j < i ==> !paths::same_path((#[trigger] projects[j]).path@, roots[k]@)
        } by {
        let pred = listing::with_key(all, key, key(roots[k]));
        crate::select::lemma_first_index(all.len(), pred);
        let i = crate::select::first_index(all.len(), pred)->0 as int;
        assert(projects[i].path == roots[k]);
        assert forall|j: int| 0 <= j < i implies !paths::same_path(
            (#[trigger] projects[j]).path@,
            roots[k]@,
        ) by {
            assert(!pred(j));
        }
    }
}

} // verus!
