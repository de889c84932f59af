//! Rules of the DataView calls a handler makes (`ctx.dataview()` and
//! `Rivers.db.batch()`): which registered DataView a name refers to, the
//! rule that a DataView used inside a transaction must run on the
//! transaction's datasource, and the errors thrown to the handler.

use vstd::prelude::*;
use crate::text::{chars_of, decimal, push_decimal, has_char, has_prefix, contains_char, push_str, slice_eq, starts_with, string_of};

verus! {

/// The registered name of a DataView a handler names: qualified with the
/// task's namespace (`namespace:name`) unless the task has no namespace,
/// the namespace is empty, or the name is already qualified (holds `:`).
pub open spec fn qualified_dataview(namespace: Option<Seq<char>>, name: Seq<char>) -> Seq<char> {
    match namespace {
        Some(ns) => if ns.len() > 0 && !contains_char(name, ':') {
            ns + ":"@ + name
        } else {
            name
        },
        None => name,
    }
}

/// The registered name of a DataView a handler names.
pub fn task_dataview_name(namespace: Option<&str>, name: &str) -> (r: String)
    ensures
        r@ == qualified_dataview(
            match namespace {
                Some(n) => Some(n@),
                None => None,
            },
            name@,
        ),
{
    match namespace {
        Some(ns) => {
            let v = chars_of(name);
            if !ns.is_empty() && !has_char(v.as_slice(), ':') {
                let mut s = String::new();
                push_str(&mut s, ns);
                push_str(&mut s, ":");
                push_str(&mut s, name);
                s
            } else {
                name.to_owned()
            }
        },
        None => name.to_owned(),
    }
}

/// A DataView's datasource as the handler names it: without the task's
/// `namespace:` prefix when it carries one.
pub open spec fn bare_datasource(namespace: Option<Seq<char>>, ds: Seq<char>) -> Seq<char> {
    let prefix = match namespace {
        Some(ns) => ns + ":"@,
        None => Seq::empty(),
    };
    if has_prefix(ds, prefix) {
        ds.skip(prefix.len() as int)
    } else {
        ds
    }
}

/// The message thrown when a DataView used inside a transaction runs on
/// another datasource than the transaction.
pub open spec fn datasource_mismatch(name: Seq<char>, bare: Seq<char>, txn: Seq<char>) -> Seq<char> {
    "TransactionError: dataview \""@ + name + "\" uses datasource \""@ + bare
        + "\" which differs from transaction datasource \""@ + txn + "\""@
}

/// Checks a DataView call made inside a transaction on `txn_datasource`:
/// when the DataView's datasource is known and, without the namespace
/// prefix, differs from the transaction's, the call is refused with this
/// message. An unknown DataView passes (its execution reports it).
pub fn transaction_dataview_refusal(
    name: &str,
    namespace: Option<&str>,
    dataview_datasource: Option<&str>,
    txn_datasource: &str,
) -> (r: Option<String>)
    ensures
        match dataview_datasource {
            None => r is None,
            Some(ds) => {
                let bare = bare_datasource(
                    match namespace {
                        Some(n) => Some(n@),
                        None => None,
                    },
                    ds@,
                );
                if bare == txn_datasource@ {
                    r is None
                } else {
                    r matches Some(m) && m@ == datasource_mismatch(name@, bare, txn_datasource@)
                }
            },
        },
{
    let ds = match dataview_datasource {
        Some(d) => d,
        None => {
            return None;
        },
    };
    let mut prefix = String::new();
    match namespace {
        Some(ns) => {
            push_str(&mut prefix, ns);
            push_str(&mut prefix, ":");
        },
        None => {},
    }
    let dv = chars_of(ds);
    let pv = chars_of(prefix.as_str());
    let bare: Vec<char> = if starts_with(dv.as_slice(), pv.as_slice()) {
        let mut b: Vec<char> = Vec::new();
        let mut i: usize = pv.len();
        while i < dv.len()
            invariant
                pv@.len() <= i <= dv@.len(),
                b@ == dv@.subrange(pv@.len() as int, i as int),
            decreases dv@.len() - i,
        {
            b.push(dv[i]);
            proof {
                assert(b@ =~= dv@.subrange(pv@.len() as int, i + 1));
            }
            i = i + 1;
        }
        proof {
            assert(b@ =~= dv@.skip(pv@.len() as int));
        }
        b
    } else {
        dv
    };
    let txn = chars_of(txn_datasource);
    if slice_eq(bare.as_slice(), txn.as_slice()) {
        return None;
    }
    let bare_s = string_of(bare.as_slice());
    let mut m = String::new();
    push_str(&mut m, "TransactionError: dataview \"");
    push_str(&mut m, name);
    push_str(&mut m, "\" uses datasource \"");
    push_str(&mut m, bare_s.as_str());
    push_str(&mut m, "\" which differs from transaction datasource \"");
    push_str(&mut m, txn_datasource);
    push_str(&mut m, "\"");
    proof {
        assert(m@ =~= datasource_mismatch(name@, bare_s@, txn_datasource@));
    }
    Some(m)
}

/// The message thrown when a handler names a DataView it did not declare
/// and no executor can run it.
pub fn dataview_not_found_message(name: &str) -> (r: String)
    ensures
        r@ == "ctx.dataview('"@ + name@ + "') not found. Declare in view config: dataviews = [\""@
            + name@ + "\"]"@,
{
    let mut m = String::new();
    push_str(&mut m, "ctx.dataview('");
    push_str(&mut m, name);
    push_str(&mut m, "') not found. Declare in view config: dataviews = [\"");
    push_str(&mut m, name);
    push_str(&mut m, "\"]");
    m
}

/// The message thrown when a DataView call fails (`batch` for
/// `Rivers.db.batch`, else `ctx.dataview`).
pub fn dataview_error_message(batch: bool, name: &str, cause: &str) -> (r: String)
    ensures
        r@ == (if batch {
            "Rivers.db.batch('"@
        } else {
            "ctx.dataview('"@
        }) + name@ + (if batch {
            "') error: "@
        } else {
            "') execution error: "@
        }) + cause@,
{
    let mut m = String::new();
    if batch {
        push_str(&mut m, "Rivers.db.batch('");
    } else {
        push_str(&mut m, "ctx.dataview('");
    }
    push_str(&mut m, name);
    if batch {
        push_str(&mut m, "') error: ");
    } else {
        push_str(&mut m, "') execution error: ");
    }
    push_str(&mut m, cause);
    m
}

/// The driver error reported when the open transaction's connection is
/// not in the transaction map.
pub fn connection_unavailable_message(datasource: &str) -> (r: String)
    ensures
        r@ == "transaction connection for '"@ + datasource@ + "' unavailable"@,
{
    let mut m = String::new();
    push_str(&mut m, "transaction connection for '");
    push_str(&mut m, datasource);
    push_str(&mut m, "' unavailable");
    m
}

/// One element of the list handed to `Rivers.db.batch`: an object, with
/// its members as `(name, value)` pairs, or anything else.
pub enum BatchEntry<V> {
    Object(Vec<(String, V)>),
    Other,
}

/// Position of the first entry that is not an object, or the length when
/// every entry is one.
pub open spec fn first_non_object<V>(entries: Seq<BatchEntry<V>>) -> int
    decreases entries.len(),
{
    if entries.len() == 0 {
        0
    } else {
        match entries[0] {
            BatchEntry::Object(_) => 1 + first_non_object(entries.drop_first()),
            BatchEntry::Other => 0,
        }
    }
}

/// The members of every entry, in order (entries that are not objects
/// give nothing).
pub open spec fn object_members<V>(entries: Seq<BatchEntry<V>>) -> Seq<Vec<(String, V)>>
    decreases entries.len(),
{
    if entries.len() == 0 {
        Seq::empty()
    } else {
        match entries[0] {
            BatchEntry::Object(m) => seq![m] + object_members(entries.drop_first()),
            BatchEntry::Other => object_members(entries.drop_first()),
        }
    }
}

/// The parameter sets `Rivers.db.batch` runs its DataView with: one per
/// entry of the list, in order, so that there is one run and one result
/// per entry; the call fails, naming the position of the first entry that
/// is not an object, when the list holds one. An argument that is not a
/// list holds no entries and runs nothing.
pub open spec fn batch_parameter_sets_spec<V>(list: Option<Seq<BatchEntry<V>>>) -> Result<
    Seq<Vec<(String, V)>>,
    int,
> {
    match list {
        Some(entries) => if first_non_object(entries) < entries.len() {
            Err(first_non_object(entries))
        } else {
            Ok(object_members(entries))
        },
        None => Ok(Seq::empty()),
    }
}

/// The view of the batch argument.
pub open spec fn batch_list_view<V>(list: &Option<Vec<BatchEntry<V>>>) -> Option<Seq<BatchEntry<V>>> {
    match list {
        Some(v) => Some(v@),
        None => None,
    }
}

/// The view of the parameter sets, or the failing position.
pub open spec fn batch_sets_view<V>(r: Result<Vec<Vec<(String, V)>>, usize>) -> Result<
    Seq<Vec<(String, V)>>,
    int,
> {
    match r {
        Ok(v) => Ok(v@),
        Err(i) => Err(i as int),
    }
}

proof fn lemma_first_non_object_bounds<V>(entries: Seq<BatchEntry<V>>)
    ensures
        0 <= first_non_object(entries) <= entries.len(),
        first_non_object(entries) == entries.len() ==> object_members(entries).len()
            == entries.len(),
    decreases entries.len(),
{
    if entries.len() > 0 {
        lemma_first_non_object_bounds(entries.drop_first());
    }
}

/// The parameter sets a batch call runs its DataView with: one per entry
/// (one execution and one result each), or the position of the first
/// entry that is not an object.
pub fn batch_parameter_sets<V>(list: Option<Vec<BatchEntry<V>>>) -> (r: Result<
    Vec<Vec<(String, V)>>,
    usize,
>)
    ensures
        batch_sets_view(r) == batch_parameter_sets_spec(batch_list_view(&list)),
        r matches Ok(sets) ==> sets@.len() == match list {
            Some(v) => v@.len(),
            None => 0,
        },
{
    let ghost lv = batch_list_view(&list);
    let mut entries = match list {
        Some(v) => v,
        None => {
            return Ok(Vec::new());
        },
    };
    let n = entries.len();
    assert(lv == Some(entries@));
    let ghost all = entries@;
    proof {
        lemma_first_non_object_bounds(all);
    }
    let mut out: Vec<Vec<(String, V)>> = Vec::new();
    let mut pos: usize = 0;
    while entries.len() > 0
        invariant
            n == all.len(),
            lv == Some(all),
            lv == batch_list_view(&list),
            pos + entries@.len() == all.len(),
            out@ + object_members(entries@) == object_members(all),
            first_non_object(all) == pos + first_non_object(entries@),
        decreases entries@.len(),
    {
        let ghost before = entries@;
        let e = entries.remove(0);
        proof {
            assert(entries@ =~= before.drop_first());
        }
        match e {
            BatchEntry::Object(m) => {
                let ghost old_out = out@;
                out.push(m);
                proof {
                    assert(out@ + object_members(entries@) =~= old_out + (seq![m] + object_members(
                        entries@,
                    )));
                }
                pos = pos + 1;
            },
            BatchEntry::Other => {
                proof {
                    assert(first_non_object(before) == 0);
                    assert(first_non_object(all) == pos);
                    assert(pos < all.len());
                }
                return Err(pos);
            },
        }
    }
    proof {
        assert(out@ + object_members(entries@) =~= out@);
    }
    Ok(out)
}

/// Why a batch call fails on an entry that is not an object, as the
/// cause in `dataview_error_message`: `parameter entry <i> is not an
/// object`.
pub fn batch_entry_cause(index: usize) -> (r: String)
    ensures
        r@ == "parameter entry "@ + decimal(index as nat) + " is not an object"@,
{
    let mut m = String::new();
    push_str(&mut m, "parameter entry ");
    push_decimal(&mut m, index as u64);
    push_str(&mut m, " is not an object");
    m
}

} // verus!
