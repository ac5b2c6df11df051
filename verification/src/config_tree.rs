//! Configuration trees and their layering: a configuration file's table
//! laid over the settings below it, tables merging key by key.
use vstd::prelude::*;
use crate::text::str_eq;

verus! {

/// A configuration value: a table of named values, or any other value,
/// held as its TOML text.
#[derive(Debug)]
pub enum ConfigValue {
    Table(Vec<(String, ConfigValue)>),
    Leaf(String),
}

/// A configuration value by its contents: a table maps each key to its
/// value.
pub enum ConfigNode {
    Table(Map<Seq<char>, ConfigNode>),
    Leaf(Seq<char>),
}

/// The position of the first entry named `key`, or the length where none is.
pub open spec fn key_pos(t: Seq<(String, ConfigValue)>, key: Seq<char>) -> int
    decreases t.len(),
{
    if t.len() == 0 {
        0
    } else if t[0].0@ == key {
        0
    } else {
        1 + key_pos(t.drop_first(), key)
    }
}

/// The contents of a value.
pub open spec fn node_of(v: ConfigValue) -> ConfigNode
    decreases v,
{
    match v {
        ConfigValue::Leaf(s) => ConfigNode::Leaf(s@),
        ConfigValue::Table(t) => ConfigNode::Table(table_of(t@)),
    }
}

/// The contents of a table's entries: each key maps to the value of its
/// first entry.
pub open spec fn table_of(t: Seq<(String, ConfigValue)>) -> Map<Seq<char>, ConfigNode>
    decreases t,
{
    Map::new(
        |k: Seq<char>| 0 <= key_pos(t, k) < t.len(),
        |k: Seq<char>|
            if 0 <= key_pos(t, k) < t.len() {
                node_of(t[key_pos(t, k)].1)
            } else {
                ConfigNode::Leaf(Seq::<char>::empty())
            },
    )
}


/// The value of `key` in a table, where it has one.
pub open spec fn entry(m: Map<Seq<char>, ConfigNode>, key: Seq<char>) -> Option<ConfigNode> {
    if m.contains_key(key) {
        Some(m[key])
    } else {
        None
    }
}

/// A value laid over another (absent where there was none): two tables
/// merge key by key, as `merged_map` says; otherwise the upper value
/// replaces the lower.
pub open spec fn merge_node(base: Option<ConfigNode>, over: ConfigNode) -> ConfigNode
    decreases over,
{
    match (base, over) {
        (Some(ConfigNode::Table(b)), ConfigNode::Table(o)) => ConfigNode::Table(
            Map::new(
                |k: Seq<char>| b.contains_key(k) || o.contains_key(k),
                |k: Seq<char>|
                    if o.contains_key(k) {
                        merge_node(entry(b, k), o[k])
                    } else {
                        b[k]
                    },
            ),
        ),
        _ => over,
    }
}

/// A table laid over another: it has the keys of both; a key of the upper
/// table takes the upper value laid over the lower one, and any other key
/// keeps its lower value.
pub open spec fn merged_map(b: Map<Seq<char>, ConfigNode>, o: Map<Seq<char>, ConfigNode>) -> Map<
    Seq<char>,
    ConfigNode,
> {
    Map::new(
        |k: Seq<char>| b.contains_key(k) || o.contains_key(k),
        |k: Seq<char>|
            if o.contains_key(k) {
                merge_node(entry(b, k), o[k])
            } else {
                b[k]
            },
    )
}

/// Two tables merge as `merged_map` says.
pub proof fn lemma_merge_tables_node(b: Map<Seq<char>, ConfigNode>, o: Map<Seq<char>, ConfigNode>)
    ensures
        merge_node(Some(ConfigNode::Table(b)), ConfigNode::Table(o)) == ConfigNode::Table(merged_map(b, o)),
{
    let n = merge_node(Some(ConfigNode::Table(b)), ConfigNode::Table(o));
    assert(n->Table_0 =~= merged_map(b, o));
}

/// `key_pos` finds the first entry named `key`, or the length.
pub proof fn lemma_key_pos(t: Seq<(String, ConfigValue)>, key: Seq<char>)
    ensures
        0 <= key_pos(t, key) <= t.len(),
        key_pos(t, key) < t.len() ==> t[key_pos(t, key)].0@ == key,
        forall|j: int| 0 <= j < key_pos(t, key) ==> (#[trigger] t[j]).0@ != key,
    decreases t.len(),
{
    if t.len() > 0 && t[0].0@ != key {
        lemma_key_pos(t.drop_first(), key);
        assert forall|j: int| 0 <= j < key_pos(t, key) implies (#[trigger] t[j]).0@ != key by {
            if j > 0 {
                assert(t[j] == t.drop_first()[j - 1]);
            }
        }
    }
}

/// The first entry named `key` is the one `key_pos` gives: any position
/// with that key and no earlier one is it.
proof fn lemma_key_pos_unique(t: Seq<(String, ConfigValue)>, key: Seq<char>, p: int)
    requires
        0 <= p <= t.len(),
        p < t.len() ==> t[p].0@ == key,
        p == t.len() ==> forall|j: int| 0 <= j < t.len() ==> (#[trigger] t[j]).0@ != key,
        forall|j: int| 0 <= j < p ==> (#[trigger] t[j]).0@ != key,
    ensures
        key_pos(t, key) == p,
{
    lemma_key_pos(t, key);
    let r = key_pos(t, key);
    if r < p {
        assert(t[r].0@ != key);
    } else if p < r {
        assert(t[p].0@ != key);
    }
}

/// Appending an entry whose key the table lacks adds that key.
proof fn lemma_table_push(t: Seq<(String, ConfigValue)>, e: (String, ConfigValue))
    requires
        !table_of(t).contains_key(e.0@),
    ensures
        table_of(t.push(e)) == table_of(t).insert(e.0@, node_of(e.1)),
{
    let u = t.push(e);
    assert forall|k: Seq<char>| #[trigger] table_of(u).contains_key(k) == table_of(t).insert(e.0@, node_of(e.1)).contains_key(k)
        && (table_of(u).contains_key(k) ==> table_of(u)[k] == table_of(t).insert(e.0@, node_of(e.1))[k]) by {
        lemma_key_pos(t, k);
        lemma_key_pos(u, k);
        let r = key_pos(t, k);
        if r < t.len() {
            assert(u[r] == t[r]);
            lemma_key_pos_unique(u, k, r);
        } else if k == e.0@ {
            assert(u[t.len() as int] == e);
            lemma_key_pos_unique(u, k, t.len() as int);
        } else {
            lemma_key_pos_unique(u, k, u.len() as int);
        }
    }
    assert(table_of(u) =~= table_of(t).insert(e.0@, node_of(e.1)));
}

/// Replacing the first entry named `key` by another of the same name sets
/// that key's value.
proof fn lemma_table_update(t: Seq<(String, ConfigValue)>, key: Seq<char>, e: (String, ConfigValue))
    requires
        key_pos(t, key) < t.len(),
        e.0@ == key,
    ensures
        table_of(t.update(key_pos(t, key), e)) == table_of(t).insert(key, node_of(e.1)),
{
    lemma_key_pos(t, key);
    let p = key_pos(t, key);
    let u = t.update(p, e);
    assert forall|k: Seq<char>| #[trigger] table_of(u).contains_key(k) == table_of(t).insert(key, node_of(e.1)).contains_key(k)
        && (table_of(u).contains_key(k) ==> table_of(u)[k] == table_of(t).insert(key, node_of(e.1))[k]) by {
        lemma_key_pos(t, k);
        let r = key_pos(t, k);
        if k == key {
            lemma_key_pos_unique(u, k, p);
        } else {
            assert(r != p);
            assert forall|j: int| 0 <= j < r implies (#[trigger] u[j]).0@ != k by {
                assert(t[j].0@ != k);
            }
            if r < t.len() {
                assert(u[r] == t[r]);
            }
            lemma_key_pos_unique(u, k, r);
        }
    }
    assert(table_of(u) =~= table_of(t).insert(key, node_of(e.1)));
}

/// Laying a table with one more key over another: the merge gains that key,
/// laid over its lower value.
proof fn lemma_merged_insert(
    b: Map<Seq<char>, ConfigNode>,
    o: Map<Seq<char>, ConfigNode>,
    key: Seq<char>,
    x: ConfigNode,
)
    requires
        !o.contains_key(key),
    ensures
        merged_map(b, o.insert(key, x)) == merged_map(b, o).insert(key, merge_node(entry(b, key), x)),
{
    assert(merged_map(b, o.insert(key, x)) =~= merged_map(b, o).insert(key, merge_node(entry(b, key), x)));
}

/// Appending an entry whose key the table already has changes nothing:
/// the first entry of a key is the one that counts.
proof fn lemma_table_push_dup(t: Seq<(String, ConfigValue)>, e: (String, ConfigValue))
    requires
        table_of(t).contains_key(e.0@),
    ensures
        table_of(t.push(e)) == table_of(t),
{
    let u = t.push(e);
    assert forall|k: Seq<char>| #[trigger] table_of(u).contains_key(k) == table_of(t).contains_key(k)
        && (table_of(u).contains_key(k) ==> table_of(u)[k] == table_of(t)[k]) by {
        lemma_key_pos(t, k);
        let r = key_pos(t, k);
        if r < t.len() {
            assert(u[r] == t[r]);
            assert forall|j: int| 0 <= j < r implies (#[trigger] u[j]).0@ != k by {
                assert(t[j].0@ != k);
            }
            lemma_key_pos_unique(u, k, r);
        } else {
            lemma_key_pos(t, e.0@);
            assert(k != e.0@);
            assert forall|j: int| 0 <= j < u.len() implies (#[trigger] u[j]).0@ != k by {
                if j < t.len() {
                    assert(t[j].0@ != k);
                }
            }
            lemma_key_pos_unique(u, k, u.len() as int);
        }
    }
    assert(table_of(u) =~= table_of(t));
}

/// The position of the first entry named `key`, or the length where none is.
fn find_key(t: &Vec<(String, ConfigValue)>, key: &str) -> (p: usize)
    ensures
        p == key_pos(t@, key@),
{
    let mut i: usize = 0;
    while i < t.len()
        invariant
            i <= t@.len(),
            forall|j: int| 0 <= j < i ==> (#[trigger] t@[j]).0@ != key@,
        decreases t.len() - i,
    {
        if str_eq(t[i].0.as_str(), key) {
            proof {
                lemma_key_pos_unique(t@, key@, i as int);
            }
            return i;
        }
        i = i + 1;
    }
    proof {
        lemma_key_pos_unique(t@, key@, t@.len() as int);
    }
    i
}

/// Whether `key` is among `keys`.
fn has_key(keys: &Vec<String>, key: &str) -> (b: bool)
    ensures
        b == exists|j: int| 0 <= j < keys@.len() && (#[trigger] keys@[j])@ == key@,
{
    let mut i: usize = 0;
    while i < keys.len()
        invariant
            i <= keys@.len(),
            forall|j: int| 0 <= j < i ==> (#[trigger] keys@[j])@ != key@,
        decreases keys.len() - i,
    {
        if str_eq(keys[i].as_str(), key) {
            return true;
        }
        i = i + 1;
    }
    false
}

/// Lays `overrides` over `base`, as a configuration file's table is laid
/// over the settings below it: each key of `overrides` (the first entry of
/// a key, where one repeats) replaces the value in `base`, except that two
/// tables merge in the same way, key by key; keys new to `base` are added
/// at its end.
pub fn merge_tables(base: &mut Vec<(String, ConfigValue)>, overrides: Vec<(String, ConfigValue)>)
    ensures
        table_of(final(base)@) == merged_map(table_of(old(base)@), table_of(overrides@)),
    decreases overrides@,
{
    let ghost o0 = overrides@;
    let ghost b0 = table_of(base@);
    let mut rest = overrides;
    let mut seen: Vec<String> = Vec::new();
    let ghost mut i: int = 0;
    assert(o0.subrange(0, 0) =~= Seq::<(String, ConfigValue)>::empty());
    assert(table_of(o0.subrange(0, 0)) =~= Map::<Seq<char>, ConfigNode>::empty());
    assert(merged_map(b0, Map::<Seq<char>, ConfigNode>::empty()) =~= b0);
    while rest.len() > 0
        invariant
            0 <= i <= o0.len(),
            o0 == overrides@,
            rest@ == o0.subrange(i, o0.len() as int),
            seen@.len() == i,
            forall|j: int| 0 <= j < i ==> (#[trigger] seen@[j])@ == o0[j].0@,
            table_of(base@) == merged_map(b0, table_of(o0.subrange(0, i))),
        decreases rest.len(),
    {
        let ghost before = base@;
        let ghost prefix = o0.subrange(0, i);
        let (key, value) = rest.remove(0);
        let key_text = key.clone();
        assert(o0[i] == (key, value));
        assert(o0.subrange(0, i + 1) =~= prefix.push(o0[i]));
        let dup = has_key(&seen, key.as_str());
        proof {
            lemma_key_pos(prefix, key@);
        }
        if dup {
            proof {
                let j = choose|j: int| 0 <= j < seen@.len() && (#[trigger] seen@[j])@ == key@;
                assert(prefix[j].0@ == key@);
                lemma_table_push_dup(prefix, o0[i]);
            }
        } else {
            proof {
                assert forall|j: int| 0 <= j < prefix.len() implies (#[trigger] prefix[j]).0@ != key@ by {
                    assert(seen@[j]@ != key@);
                }
                lemma_key_pos_unique(prefix, key@, prefix.len() as int);
                lemma_table_push(prefix, o0[i]);
                lemma_merged_insert(b0, table_of(prefix), key@, node_of(value));
            }
            let p = find_key(base, key.as_str());
            if p < base.len() {
                proof {
                    lemma_key_pos(before, key@);
                }
                let (name, old_value) = base.remove(p);
                let ghost old_node = node_of(old_value);
                let ghost new_node = merge_node(Some(old_node), node_of(value));
                let new_value = match old_value {
                    ConfigValue::Table(mut bt) => match value {
                        ConfigValue::Table(vt) => {
                            proof {
                                assert(decreases_to!(o0 => o0[i]));
                                assert(decreases_to!(o0[i] => o0[i].1));
                                assert(decreases_to!(vt => vt@)) by {
                                    broadcast use vstd::std_specs::vec::axiom_vec_decreases_to_view;
                                }
                                lemma_merge_tables_node(table_of(bt@), table_of(vt@));
                            }
                            merge_tables(&mut bt, vt);
                            ConfigValue::Table(bt)
                        },
                        other => other,
                    },
                    _ => value,
                };
                assert(node_of(new_value) == new_node);
                base.insert(p, (name, new_value));
                proof {
                    assert(base@ =~= before.update(p as int, (name, new_value)));
                    lemma_table_update(before, key@, (name, new_value));
                    assert(table_of(before).contains_key(key@));
                    assert(table_of(before)[key@] == old_node);
                    assert(b0.contains_key(key@));
                    assert(entry(b0, key@) == Some(old_node));
                    assert(table_of(base@) =~= merged_map(b0, table_of(o0.subrange(0, i + 1))));
                }
            } else {
                proof {
                    assert(!table_of(before).contains_key(key@));
                    assert(!b0.contains_key(key@));
                    assert(entry(b0, key@) == None::<ConfigNode>);
                }
                base.push((key, value));
                proof {
                    lemma_table_push(before, o0[i]);
                    assert(table_of(base@) =~= merged_map(b0, table_of(o0.subrange(0, i + 1))));
                }
            }
        }
        seen.push(key_text);
        proof {
            i = i + 1;
        }
    }
    assert(o0.subrange(0, o0.len() as int) =~= o0);
}

/// Lays a parsed configuration document over the current settings: when
/// both are tables they merge as `merge_tables` says; otherwise the
/// settings stay as they are.
pub fn lay_over(base: &mut ConfigValue, overrides: ConfigValue)
    ensures
        (*old(base) is Table && overrides is Table) ==> node_of(*final(base)) == merge_node(
            Some(node_of(*old(base))),
            node_of(overrides),
        ),
        !(*old(base) is Table && overrides is Table) ==> *final(base) == *old(base),
{
    if let ConfigValue::Table(over_t) = overrides {
        if let ConfigValue::Table(base_t) = base {
            let ghost b = base_t@;
            proof {
                lemma_merge_tables_node(table_of(b), table_of(over_t@));
            }
            merge_tables(base_t, over_t);
        }
    }
}

// ---------------------------------------------------------------------------
// TOML documents
// ---------------------------------------------------------------------------

#[verifier::external_type_specification]
#[verifier::external_body]
pub struct ExTomlValue(toml::Value);

/// What parsing a TOML document as a value gives: its tree (tables by their
/// entries, any other value by its TOML text), or the parser's message.
pub uninterp spec fn toml_document(text: Seq<char>) -> Result<ConfigNode, Seq<char>>;

/// A parsed TOML value as a configuration tree: tables entry by entry, in
/// the table's order, and any other value as its TOML text (`Display`).
#[verifier::external_body]
fn tree_of_toml(v: toml::Value) -> ConfigValue {
    match v {
        toml::Value::Table(t) => ConfigValue::Table(t.into_iter().map(|(k, v)| (k, tree_of_toml(v))).collect()),
        other => ConfigValue::Leaf(other.to_string()),
    }
}

/// `toml::from_str::<toml::Value>`: parses a TOML document. The contract
/// names the result; a failure carries the parser's message.
#[verifier::external_body]
fn parse_toml(text: &str) -> (r: Result<ConfigValue, String>)
    ensures
        match r {
            Ok(v) => toml_document(text@) == Ok::<ConfigNode, Seq<char>>(node_of(v)),
            Err(e) => toml_document(text@) == Err::<ConfigNode, Seq<char>>(e@),
        },
{
    match toml::from_str::<toml::Value>(text) {
        Ok(v) => Ok(tree_of_toml(v)),
        Err(e) => Err(e.to_string()),
    }
}

/// Parses a TOML document into a configuration tree, or gives the parser's
/// message.
pub fn parse_document(text: &str) -> (r: Result<ConfigValue, String>)
    ensures
        match r {
            Ok(v) => toml_document(text@) == Ok::<ConfigNode, Seq<char>>(node_of(v)),
            Err(e) => toml_document(text@) == Err::<ConfigNode, Seq<char>>(e@),
        },
{
    parse_toml(text)
}

/// Lays a TOML document over the settings: a document that does not parse
/// leaves them as they are and gives the parser's message; otherwise, when
/// both are tables they merge as `merge_tables` says, and else the settings
/// stay as they are.
pub fn lay_document_over(base: &mut ConfigValue, text: &str) -> (r: Result<(), String>)
    ensures
        match toml_document(text@) {
            Err(e) => (r matches Err(m) && m@ == e) && *final(base) == *old(base),
            Ok(n) => {
                &&& r is Ok
                &&& (*old(base) is Table && n is Table) ==> node_of(*final(base)) == merge_node(
                    Some(node_of(*old(base))),
                    n,
                )
                &&& !(*old(base) is Table && n is Table) ==> *final(base) == *old(base)
            },
        },
{
    match parse_toml(text) {
        Ok(overrides) => {
            lay_over(base, overrides);
            Ok(())
        },
        Err(e) => Err(e),
    }
}

// ---------------------------------------------------------------------------
// Laws of layering
// ---------------------------------------------------------------------------

/// Laying an empty table over settings leaves them as they are.
pub proof fn law_empty_layer_changes_nothing(b: Map<Seq<char>, ConfigNode>)
    ensures
        merged_map(b, Map::empty()) == b,
{
    assert(merged_map(b, Map::empty()) =~= b);
}

/// Laying a table over empty settings gives that table.
pub proof fn law_layer_over_nothing(o: Map<Seq<char>, ConfigNode>)
    ensures
        merged_map(Map::empty(), o) == o,
{
    assert forall|k: Seq<char>| o.contains_key(k) implies merged_map(Map::empty(), o)[k] == o[k] by {
        assert(entry(Map::empty(), k) == None::<ConfigNode>);
    }
    assert(merged_map(Map::empty(), o) =~= o);
}

/// A value laid over itself is unchanged.
proof fn lemma_merge_node_self(n: ConfigNode)
    ensures
        merge_node(Some(n), n) == n,
    decreases n,
{
    match n {
        ConfigNode::Table(m) => {
            assert forall|k: Seq<char>| m.contains_key(k) implies merged_map(m, m)[k] == m[k] by {
                lemma_merge_node_self(m[k]);
            }
            assert(merged_map(m, m) =~= m);
            lemma_merge_tables_node(m, m);
        },
        ConfigNode::Leaf(_) => {},
    }
}

/// Laying settings over themselves changes nothing: layering is idempotent.
pub proof fn law_layering_idempotent(m: Map<Seq<char>, ConfigNode>)
    ensures
        merged_map(m, m) == m,
{
    lemma_merge_node_self(ConfigNode::Table(m));
    lemma_merge_tables_node(m, m);
}

/// A key that only the lower settings have keeps its value, and a plain
/// (non-table) value of the upper table always wins.
pub proof fn law_upper_plain_values_win(b: Map<Seq<char>, ConfigNode>, o: Map<Seq<char>, ConfigNode>, k: Seq<char>)
    ensures
        b.contains_key(k) && !o.contains_key(k) ==> merged_map(b, o)[k] == b[k],
        o.contains_key(k) && o[k] is Leaf ==> merged_map(b, o)[k] == o[k],
        merged_map(b, o).dom() == b.dom().union(o.dom()),
{
    assert(merged_map(b, o).dom() =~= b.dom().union(o.dom()));
}

} // verus!
