//! Rules of the `Rivers.db` host API: the task's single transaction slot
//! (begin, commit, rollback), the parameter names bound to positional
//! arguments, and the argument checks of query calls.

use vstd::prelude::*;
use crate::text::{chars_of, decimal, is_white_space, push_decimal, push_str, str_eq, white_space};

verus! {

/// The transaction slot of a task: the datasource of the open
/// transaction, if any.
pub struct TxnSlot {
    active: Option<String>,
}

/// How a commit or rollback request is answered.
pub enum TxnEnd {
    /// End the transaction on this datasource; the slot is now empty.
    End(String),
    /// Nothing to roll back.
    Nothing,
    /// Refused with this message; the slot is unchanged.
    Refused(String),
}

impl TxnSlot {
    /// The datasource of the open transaction.
    pub closed spec fn open_on(&self) -> Option<Seq<char>> {
        match self.active {
            Some(d) => Some(d@),
            None => None,
        }
    }

    /// No open transaction.
    pub fn new() -> (r: Self)
        ensures
            r.open_on() is None,
    {
        TxnSlot { active: None }
    }

    /// Whether a transaction is open.
    pub fn is_active(&self) -> (r: bool)
        ensures
            r == self.open_on() is Some,
    {
        self.active.is_some()
    }

    /// Checks a `Rivers.db.begin` call: a datasource name is required, no
    /// transaction may be open, the datasource must be known and a driver
    /// factory available. The refusal message, if any.
    pub fn begin_refusal(&self, ds_name: &str, ds_known: bool, factory_available: bool) -> (r: Option<
        String,
    >)
        ensures
            ds_name@.len() == 0 ==> (r matches Some(m) && m@
                == "Rivers.db.begin: datasource name is required"@),
            ds_name@.len() > 0 && self.open_on() is Some ==> (r matches Some(m) && m@
                == "TransactionError: nested transactions not supported"@),
            ds_name@.len() > 0 && self.open_on() is None && !ds_known ==> (r matches Some(m) && m@
                == "TransactionError: datasource \""@ + ds_name@ + "\" not found in task config"@),
            ds_name@.len() > 0 && self.open_on() is None && ds_known && !factory_available
                ==> (r matches Some(m) && m@ == "TransactionError: driver factory not available"@),
            ds_name@.len() > 0 && self.open_on() is None && ds_known && factory_available
                ==> r is None,
    {
        if ds_name.is_empty() {
            Some("Rivers.db.begin: datasource name is required".to_owned())
        } else if self.active.is_some() {
            Some("TransactionError: nested transactions not supported".to_owned())
        } else if !ds_known {
            let mut s = String::new();
            push_str(&mut s, "TransactionError: datasource \"");
            push_str(&mut s, ds_name);
            push_str(&mut s, "\" not found in task config");
            proof {
                assert(s@ =~= "TransactionError: datasource \""@ + ds_name@
                    + "\" not found in task config"@);
            }
            Some(s)
        } else if !factory_available {
            Some("TransactionError: driver factory not available".to_owned())
        } else {
            None
        }
    }

    /// Records the transaction opened on `ds_name`.
    pub fn opened(&mut self, ds_name: &str)
        requires
            old(self).open_on() is None,
        ensures
            final(self).open_on() == Some(ds_name@),
    {
        self.active = Some(ds_name.to_owned());
    }

    /// Ends the open transaction for a commit (`committing`) or a rollback
    /// naming `ds_name` (empty: whichever is open). Without an open
    /// transaction a commit is refused and a rollback does nothing; naming
    /// another datasource is refused and leaves the transaction open.
    pub fn end(&mut self, ds_name: &str, committing: bool) -> (r: TxnEnd)
        ensures
            old(self).open_on() is None ==> *final(self) == *old(self),
            old(self).open_on() is None && committing ==> (r matches TxnEnd::Refused(m) && m@
                == "TransactionError: no active transaction to commit"@),
            old(self).open_on() is None && !committing ==> r is Nothing,
            (old(self).open_on() matches Some(d) && ds_name@.len() > 0 && d != ds_name@)
                ==> *final(self) == *old(self),
            (old(self).open_on() matches Some(d) && ds_name@.len() > 0 && d != ds_name@)
                ==> (r matches TxnEnd::Refused(m) && m@ == "TransactionError: active transaction is on \""@
                + old(self).open_on()->0 + "\", not \""@ + ds_name@ + "\""@),
            (old(self).open_on() matches Some(d) && (ds_name@.len() == 0 || d == ds_name@))
                ==> final(self).open_on() is None,
            (old(self).open_on() matches Some(d) && (ds_name@.len() == 0 || d == ds_name@))
                ==> (r matches TxnEnd::End(e) && e@ == old(self).open_on()->0),
    {
        match self.active.take() {
            None => {
                if committing {
                    TxnEnd::Refused("TransactionError: no active transaction to commit".to_owned())
                } else {
                    TxnEnd::Nothing
                }
            },
            Some(d) => {
                if !ds_name.is_empty() && !str_eq(d.as_str(), ds_name) {
                    let mut m = String::new();
                    push_str(&mut m, "TransactionError: active transaction is on \"");
                    push_str(&mut m, d.as_str());
                    push_str(&mut m, "\", not \"");
                    push_str(&mut m, ds_name);
                    push_str(&mut m, "\"");
                    proof {
                        assert(m@ =~= "TransactionError: active transaction is on \""@ + d@
                            + "\", not \""@ + ds_name@ + "\""@);
                    }
                    self.active = Some(d);
                    TxnEnd::Refused(m)
                } else {
                    TxnEnd::End(d)
                }
            },
        }
    }
}

/// The parameter name bound to the `n`-th positional argument.
pub open spec fn param_key(n: nat) -> Seq<char> {
    "_p"@ + decimal(n)
}

/// The parameter name bound to the `n`-th positional argument: `_p` and
/// the number.
pub fn positional_param_name(n: u64) -> (r: String)
    ensures
        r@ == param_key(n as nat),
{
    let mut s = String::new();
    push_str(&mut s, "_p");
    push_decimal(&mut s, n);
    s
}

/// The parameters bound for a call: `_p1`, `_p2`, ... up to the larger of
/// the number of arguments given and the highest placeholder number, each
/// with the index of its argument, or none (bound to null) where the SQL
/// names a placeholder that was not given.
pub fn bound_parameters(given: usize, max_index: usize) -> (r: Vec<(String, Option<usize>)>)
    ensures
        r@.len() == if given >= max_index {
            given
        } else {
            max_index
        },
        forall|i: int|
            0 <= i < r@.len() ==> r@[i].0@ == param_key((i + 1) as nat) && r@[i].1 == if i < given {
                Some(i as usize)
            } else {
                None::<usize>
            },
{
    let n = if given >= max_index {
        given
    } else {
        max_index
    };
    let mut r: Vec<(String, Option<usize>)> = Vec::new();
    let mut i: usize = 0;
    while i < n
        invariant
            i <= n,
            n == if given >= max_index {
                given
            } else {
                max_index
            },
            r@.len() == i,
            forall|j: int|
                0 <= j < i ==> r@[j].0@ == param_key((j + 1) as nat) && r@[j].1 == if j < given {
                    Some(j as usize)
                } else {
                    None::<usize>
                },
        decreases n - i,
    {
        let key = positional_param_name(i as u64 + 1);
        let idx = if i < given {
            Some(i)
        } else {
            None
        };
        r.push((key, idx));
        i = i + 1;
    }
    r
}

/// `n` in decimal, padded with zeros to at least three digits.
pub open spec fn padded3(n: nat) -> Seq<char> {
    if n < 10 {
        "00"@ + decimal(n)
    } else if n < 100 {
        "0"@ + decimal(n)
    } else {
        decimal(n)
    }
}

/// The key of the `n`-th parameter for drivers that bind by position:
/// the number padded with zeros to three digits.
pub fn ordinal_key(n: u64) -> (r: String)
    ensures
        r@ == padded3(n as nat),
{
    let mut s = String::new();
    if n < 10 {
        push_str(&mut s, "00");
    } else if n < 100 {
        push_str(&mut s, "0");
    }
    push_decimal(&mut s, n);
    s
}

/// Whether every character of `s` is white space (`str::trim` leaves
/// nothing).
pub open spec fn blank(s: Seq<char>) -> bool {
    forall|i: int| 0 <= i < s.len() ==> is_white_space(s[i])
}

/// Whether a text is blank.
pub fn is_blank(s: &str) -> (r: bool)
    ensures
        r == blank(s@),
{
    let v = chars_of(s);
    let mut i: usize = 0;
    while i < v.len()
        invariant
            v@ == s@,
            i <= v@.len(),
            forall|j: int| 0 <= j < i ==> is_white_space(v@[j]),
        decreases v@.len() - i,
    {
        if !white_space(v[i]) {
            return false;
        }
        i = i + 1;
    }
    true
}

/// Why a `Rivers.db.query` / `Rivers.db.execute` call (`callback` names
/// it) is refused, checked in order: a datasource name and a non-blank SQL
/// statement are required; the datasource must be declared by the view;
/// inside a transaction it must be the transaction's datasource; it must
/// be configured for the task; a driver factory and a runtime must be at
/// hand.
pub open spec fn db_call_refusal_text(
    callback: Seq<char>,
    ds_name: Seq<char>,
    sql: Option<Seq<char>>,
    declared: bool,
    txn_datasource: Option<Seq<char>>,
    configured: bool,
    has_factory: bool,
    runtime_error: Option<Seq<char>>,
) -> Option<Seq<char>> {
    if ds_name.len() == 0 {
        Some(callback + ": datasource name is required"@)
    } else if sql is None || blank(sql->0) {
        Some(callback + ": sql is required"@)
    } else if !declared {
        Some("CapabilityError: datasource '"@ + ds_name + "' not declared in view config"@)
    } else if txn_datasource is Some && txn_datasource->0 != ds_name {
        Some(
            "TransactionError: active transaction is on \""@ + txn_datasource->0 + "\", not \""@
                + ds_name + "\" \u{2014} "@ + callback
                + " cannot route across datasources inside a transaction"@,
        )
    } else if !configured {
        Some(callback + ": datasource \""@ + ds_name + "\" not found in task config"@)
    } else if !has_factory {
        Some(callback + ": driver factory not available"@)
    } else if runtime_error is Some {
        Some(callback + ": "@ + runtime_error->0)
    } else {
        None
    }
}

/// The view of an optional text.
pub open spec fn opt_text(o: Option<&str>) -> Option<Seq<char>> {
    match o {
        Some(s) => Some(s@),
        None => None,
    }
}

/// Checks a `Rivers.db.query` / `Rivers.db.execute` call; the refusal
/// message, if any.
pub fn db_call_refusal(
    callback: &str,
    ds_name: &str,
    sql: Option<&str>,
    declared: bool,
    txn_datasource: Option<&str>,
    configured: bool,
    has_factory: bool,
    runtime_error: Option<&str>,
) -> (r: Option<String>)
    ensures
        match db_call_refusal_text(
            callback@,
            ds_name@,
            opt_text(sql),
            declared,
            opt_text(txn_datasource),
            configured,
            has_factory,
            opt_text(runtime_error),
        ) {
            Some(m) => r matches Some(x) && x@ == m,
            None => r is None,
        },
{
    let mut m = String::new();
    if ds_name.is_empty() {
        push_str(&mut m, callback);
        push_str(&mut m, ": datasource name is required");
        return Some(m);
    }
    let sql_missing = match sql {
        None => true,
        Some(q) => is_blank(q),
    };
    if sql_missing {
        push_str(&mut m, callback);
        push_str(&mut m, ": sql is required");
        return Some(m);
    }
    if !declared {
        push_str(&mut m, "CapabilityError: datasource '");
        push_str(&mut m, ds_name);
        push_str(&mut m, "' not declared in view config");
        proof {
            assert(m@ =~= "CapabilityError: datasource '"@ + ds_name@ + "' not declared in view config"@);
        }
        return Some(m);
    }
    match txn_datasource {
        Some(t) => {
            if !str_eq(t, ds_name) {
                push_str(&mut m, "TransactionError: active transaction is on \"");
                push_str(&mut m, t);
                push_str(&mut m, "\", not \"");
                push_str(&mut m, ds_name);
                push_str(&mut m, "\" \u{2014} ");
                push_str(&mut m, callback);
                push_str(&mut m, " cannot route across datasources inside a transaction");
                proof {
                    assert(m@ =~= "TransactionError: active transaction is on \""@ + t@ + "\", not \""@
                        + ds_name@ + "\" \u{2014} "@ + callback@
                        + " cannot route across datasources inside a transaction"@);
                }
                return Some(m);
            }
        },
        None => {},
    }
    if !configured {
        push_str(&mut m, callback);
        push_str(&mut m, ": datasource \"");
        push_str(&mut m, ds_name);
        push_str(&mut m, "\" not found in task config");
        proof {
            assert(m@ =~= callback@ + ": datasource \""@ + ds_name@ + "\" not found in task config"@);
        }
        return Some(m);
    }
    if !has_factory {
        push_str(&mut m, callback);
        push_str(&mut m, ": driver factory not available");
        return Some(m);
    }
    match runtime_error {
        Some(e) => {
            push_str(&mut m, callback);
            push_str(&mut m, ": ");
            push_str(&mut m, e);
            Some(m)
        },
        None => None,
    }
}

/// The error of a query run outside a transaction (`connecting` when the
/// connection failed), or of one whose transaction connection is gone.
pub fn db_core_error(failure: DbCoreFailure, cause: &str) -> (r: String)
    ensures
        r@ == match failure {
            DbCoreFailure::Connection => "connection failed: "@ + cause@,
            DbCoreFailure::Query => "query failed: "@ + cause@,
            DbCoreFailure::TransactionConnectionGone => "TransactionError: connection for datasource '"@
                + cause@ + "' is unavailable (race with commit/rollback?)"@,
        },
{
    let mut m = String::new();
    match failure {
        DbCoreFailure::Connection => {
            push_str(&mut m, "connection failed: ");
            push_str(&mut m, cause);
        },
        DbCoreFailure::Query => {
            push_str(&mut m, "query failed: ");
            push_str(&mut m, cause);
        },
        DbCoreFailure::TransactionConnectionGone => {
            push_str(&mut m, "TransactionError: connection for datasource '");
            push_str(&mut m, cause);
            push_str(&mut m, "' is unavailable (race with commit/rollback?)");
        },
    }
    m
}

/// How running a query failed.
#[derive(PartialEq, Eq, Structural, Clone, Copy, Debug)]
pub enum DbCoreFailure {
    /// Connecting to the datasource failed.
    Connection,
    /// The query failed.
    Query,
    /// The transaction's connection is not in the transaction map (the
    /// cause is the datasource).
    TransactionConnectionGone,
}

} // verus!
