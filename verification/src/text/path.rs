//! Paths as text: what their components are and when two are the same.

use super::chars::{chars, same};
use super::space::{
    field_stands_before_the_others, fields_of, first_index, first_place_is_found, split, views,
};
use vstd::prelude::*;

verus! {

/// The field `f`, at the place `i` of a path, names a component: it is not
/// empty, and it is not a dot, except at the very beginning.
pub open spec fn names_component(f: Seq<char>, i: int) -> bool {
    f.len() > 0 && (f != "."@ || i == 0)
}

/// The components that the first `n` of the fields between the slashes name.
pub open spec fn named(fields: Seq<Seq<char>>, n: nat) -> Seq<Seq<char>>
    decreases n,
{
    if n == 0 {
        Seq::empty()
    } else {
        let before = named(fields, (n - 1) as nat);
        if names_component(fields[n - 1], n - 1) {
            before.push(fields[n - 1])
        } else {
            before
        }
    }
}

/// The components of a path. That of the root is a slash.
pub open spec fn components_of(path: Seq<char>) -> Seq<Seq<char>> {
    let fields = fields_of(path, '/');
    let root: Seq<Seq<char>> = if path.len() > 0 && path[0] == '/' {
        seq!["/"@]
    } else {
        Seq::empty()
    };
    root + named(fields, fields.len())
}

/// The name of what a path leads to, where its last component is a name.
pub open spec fn file_name_of(path: Seq<char>) -> Option<Seq<char>> {
    let parts = components_of(path);
    if parts.len() > 0 && parts.last() != "/"@ && parts.last() != "."@ && parts.last() != ".."@ {
        Some(parts.last())
    } else {
        None
    }
}

/// The path `name` below the directory `dir`.
pub open spec fn joined(dir: Seq<char>, name: Seq<char>) -> Seq<char> {
    if dir.len() == 0 || dir.last() == '/' {
        dir + name
    } else {
        dir + "/"@ + name
    }
}

/// The components of a path.
pub fn components(path: &str) -> (r: Vec<String>)
    ensures
        views(r@) == components_of(path@),
{
    let fields = split(path, '/');
    let v = chars(path);
    let mut r: Vec<String> = Vec::new();
    if v.len() > 0 && v[0] == '/' {
        r.push("/".to_string());
    }
    let ghost all = fields_of(path@, '/');
    let ghost root = views(r@);
    assert(root =~= if path@.len() > 0 && path@[0] == '/' {
        seq!["/"@]
    } else {
        Seq::empty()
    });
    for i in 0..fields.len()
        invariant
            views(fields@) == all,
            views(r@) =~= root + named(all, i as nat),
    {
        let empty = chars(fields[i].as_str()).len() == 0;
        let ghost before = views(r@);
        assert(all[i as int] == fields@[i as int]@);
        if !empty && (i == 0 || !same(fields[i].as_str(), ".")) {
            r.push(fields[i].clone());
            assert(views(r@) =~= before.push(all[i as int]));
        }
        assert(named(all, (i + 1) as nat) == if names_component(all[i as int], i as int) {
            named(all, i as nat).push(all[i as int])
        } else {
            named(all, i as nat)
        });
    }
    r
}

/// Whether the first components of `whole` are those of `part`.
fn has_prefix(whole: &Vec<String>, part: &Vec<String>) -> (r: bool)
    ensures
        r == (part@.len() <= whole@.len() && views(whole@).take(part@.len() as int) == views(
            part@,
        )),
{
    if part.len() > whole.len() {
        return false;
    }
    for i in 0..part.len()
        invariant
            part@.len() <= whole@.len(),
            forall|j: int| 0 <= j < i ==> whole@[j]@ == (#[trigger] part@[j])@,
    {
        if !same(whole[i].as_str(), part[i].as_str()) {
            assert(views(whole@).take(part@.len() as int)[i as int] != views(part@)[i as int]);
            return false;
        }
    }
    assert(views(whole@).take(part@.len() as int) =~= views(part@));
    true
}

/// Whether two paths have the same components.
pub fn same_path(a: &str, b: &str) -> (r: bool)
    ensures
        r == (components_of(a@) == components_of(b@)),
{
    let x = components(a);
    let y = components(b);
    assert(views(x@).take(x@.len() as int) =~= views(x@));
    assert(views(x@).len() == x@.len() && views(y@).len() == y@.len());
    x.len() == y.len() && has_prefix(&x, &y)
}

/// Whether the path `a` lies at or below the path `b`.
pub fn lies_below(a: &str, b: &str) -> (r: bool)
    ensures
        r == components_of(b@).is_prefix_of(components_of(a@)),
{
    let x = components(a);
    let y = components(b);
    assert(views(x@).len() == x@.len() && views(y@).len() == y@.len());
    assert(views(x@).take(y@.len() as int) =~= views(x@).subrange(0, y@.len() as int));
    has_prefix(&x, &y)
}

/// The name of what a path leads to.
pub fn file_name(path: &str) -> (r: Option<String>)
    ensures
        r is Some <==> file_name_of(path@) is Some,
        r matches Some(name) ==> file_name_of(path@) == Some(name@),
{
    let mut parts = components(path);
    assert(views(parts@).len() == parts@.len());
    let n = parts.len();
    if n == 0 {
        return None;
    }
    assert(views(parts@).last() == parts@.last()@);
    if same(parts[n - 1].as_str(), "/") || same(parts[n - 1].as_str(), ".") || same(
        parts[n - 1].as_str(),
        "..",
    ) {
        None
    } else {
        parts.pop()
    }
}

/// The path `name` below the directory `dir`; `name` is no absolute path.
pub fn join(dir: &str, name: &str) -> (r: String)
    ensures
        r@ == joined(dir@, name@),
{
    let v = chars(dir);
    let mut r = dir.to_string();
    if v.len() > 0 && v[v.len() - 1] != '/' {
        r.push('/');
        proof {
            reveal_strlit("/");
            assert(r@ =~= dir@ + "/"@);
        }
    }
    r.append(name);
    r
}

/// A field behind the last separator is the last field.
pub proof fn lemma_last_field(dir: Seq<char>, f: Seq<char>, c: char)
    requires
        !f.contains(c),
    ensures
        fields_of(dir + seq![c] + f, c) == fields_of(dir, c).push(f),
    decreases dir.len(),
{
    let whole = dir + seq![c] + f;
    first_place_is_found(dir, c);
    let n = first_index(dir, c) as int;
    if n >= dir.len() {
        assert(!dir.contains(c));
        field_stands_before_the_others(dir, c, f);
        field_stands_before_the_others(f, c, f);
        assert(seq![dir] + seq![f] =~= seq![dir].push(f));
    } else {
        let first = dir.take(n);
        let rest = dir.skip(n + 1);
        assert(!first.contains(c)) by {
            if first.contains(c) {
                let i = choose|i: int| 0 <= i < first.len() && first[i] == c;
                assert(dir[i] == c);
            }
        }
        lemma_last_field(rest, f, c);
        assert(dir =~= first + seq![c] + rest);
        assert(whole =~= first + seq![c] + (rest + seq![c] + f));
        field_stands_before_the_others(first, c, rest);
        field_stands_before_the_others(first, c, rest + seq![c] + f);
        assert(seq![first] + fields_of(rest, c).push(f) =~= (seq![first] + fields_of(rest, c)).push(
            f,
        ));
    }
}

/// What the first fields name does not depend on those behind them.
proof fn lemma_named(fields: Seq<Seq<char>>, f: Seq<char>, n: nat)
    requires
        n <= fields.len(),
    ensures
        named(fields.push(f), n) == named(fields, n),
    decreases n,
{
    if n > 0 {
        lemma_named(fields, f, (n - 1) as nat);
    }
}

/// There is always a field.
proof fn lemma_some_field(s: Seq<char>, c: char)
    ensures
        fields_of(s, c).len() > 0,
{
}

/// A name below a directory is one component more. Slashes and dots behind a directory add none, and
/// what begins with a slash begins at the root.
pub proof fn name_is_one_component_more(dir: Seq<char>, f: Seq<char>)
    requires
        !f.contains('/'),
    ensures
        components_of(f) == if f.len() > 0 {
            seq![f]
        } else {
            Seq::empty()
        },
        components_of(dir + seq!['/'] + f) == (if dir.len() == 0 {
            seq!["/"@]
        } else {
            components_of(dir)
        }) + (if f.len() > 0 && f != "."@ {
            seq![f]
        } else {
            Seq::empty()
        }),
{
    field_stands_before_the_others(f, '/', f);
    if f.len() > 0 {
        assert(f[0] != '/') by {
            if f[0] == '/' {
                assert(f.contains('/'));
            }
        }
    }
    reveal_with_fuel(named, 2);
    assert(components_of(f) =~= if f.len() > 0 {
        seq![f]
    } else {
        Seq::<Seq<char>>::empty()
    });
    let whole = dir + seq!['/'] + f;
    let before = fields_of(dir, '/');
    lemma_last_field(dir, f, '/');
    lemma_named(before, f, before.len());
    lemma_some_field(dir, '/');
    let n = before.len();
    assert(named(before.push(f), (n + 1) as nat) == if names_component(f, n as int) {
        named(before, n).push(f)
    } else {
        named(before, n)
    });
    if dir.len() == 0 {
        field_stands_before_the_others(dir, '/', dir);
        assert(whole[0] == '/');
        assert(named(before, 1) =~= Seq::<Seq<char>>::empty());
    } else {
        assert(whole[0] == dir[0]);
    }
    assert(components_of(whole) =~= (if dir.len() == 0 {
        seq!["/"@]
    } else {
        components_of(dir)
    }) + (if f.len() > 0 && f != "."@ {
        seq![f]
    } else {
        Seq::empty()
    }));
}

/// What is put below a directory is found there under its name.
pub proof fn joined_name_is_found(dir: Seq<char>, name: Seq<char>)
    requires
        !name.contains('/'),
        name.len() > 0,
        name != "."@,
        name != ".."@,
    ensures
        file_name_of(joined(dir, name)) == Some(name),
        components_of(joined(dir, name)) == components_of(dir).push(name),
{
    reveal_strlit("/");
    let none = Seq::<char>::empty();
    assert(name != "/"@) by {
        if name == "/"@ {
            assert(name[0] == '/');
        }
    }
    if dir.len() == 0 {
        assert(joined(dir, name) =~= name);
        name_is_one_component_more(dir, name);
        assert(dir =~= none);
        assert(!none.contains('/'));
        name_is_one_component_more(dir, none);
        assert(components_of(dir).push(name) =~= seq![name]);
    } else if dir.last() == '/' {
        let above = dir.drop_last();
        assert(dir =~= above + seq!['/'] + none);
        assert(joined(dir, name) =~= above + seq!['/'] + name);
        name_is_one_component_more(above, name);
        name_is_one_component_more(above, none);
        assert(components_of(joined(dir, name)) =~= components_of(dir).push(name));
    } else {
        assert("/"@ =~= seq!['/']);
        assert(joined(dir, name) =~= dir + seq!['/'] + name);
        name_is_one_component_more(dir, name);
        assert(components_of(joined(dir, name)) =~= components_of(dir).push(name));
    }
}

/// The root, the directory itself and the one above it have no name.
pub proof fn dots_are_no_names(dir: Seq<char>, f: Seq<char>)
    requires
        !f.contains('/'),
    ensures
        f == ".."@ ==> file_name_of(dir + seq!['/'] + f) is None,
        f == ".."@ || f == "."@ || f.len() == 0 ==> file_name_of(f) is None,
        dir.len() == 0 && (f.len() == 0 || f == "."@) ==> file_name_of(dir + seq!['/'] + f) is None,
        f.len() > 0 && f != ".."@ && f != "."@ ==> file_name_of(f) == Some(f),
{
    name_is_one_component_more(dir, f);
    reveal_strlit("..");
    reveal_strlit(".");
    reveal_strlit("/");
    if f == "/"@ {
        assert(f[0] == '/');
    }
    if f == ".."@ {
        assert(f.len() == 2);
        assert("."@.len() == 1);
    }
}

} // verus!
