use vstd::prelude::*;
use crate::registry::{
    lemma_name_lt_irreflexive, lemma_name_lt_total, lemma_name_lt_transitive, name_less, name_lt,
};
use surrealdb_core::err::Error as DbError;
use surrealdb_core::sql::Value as DbValue;

verus! {

#[verifier::external_type_specification]
#[verifier::external_body]
pub struct ExValue(DbValue);

#[verifier::external_type_specification]
#[verifier::external_body]
pub struct ExDbError(DbError);

/// Relies on surrealdb_core::sql::to_value: encodes a serializable value as
/// a query value, or fails with the encoder's error.
#[verifier::external_body]
fn encode_value<T: serde::Serialize>(val: T) -> (r: Result<DbValue, DbError>)
{
    surrealdb_core::sql::to_value(val)
}

/// Relies on the `Display` impl of surrealdb_core's error: its message.
#[verifier::external_body]
pub(crate) fn error_message(e: &DbError) -> (r: String)
{
    e.to_string()
}

/// `parts` joined with newlines.
pub open spec fn joined(parts: Seq<Seq<char>>) -> Seq<char>
    decreases parts.len(),
{
    if parts.len() == 0 {
        Seq::empty()
    } else if parts.len() == 1 {
        parts[0]
    } else {
        joined(parts.drop_last()) + seq!['\n'] + parts.last()
    }
}

/// The position of key `k` among the bindings, if it is bound.
pub open spec fn key_index(b: Seq<(Seq<char>, DbValue)>, k: Seq<char>) -> int {
    choose|i: int| 0 <= i < b.len() && b[i].0 == k
}

pub open spec fn has_key(b: Seq<(Seq<char>, DbValue)>, k: Seq<char>) -> bool {
    exists|i: int| 0 <= i < b.len() && b[i].0 == k
}

/// `p` is where a new key `k` goes: after the keys that sort before it,
/// before those that sort after it.
pub open spec fn is_slot(b: Seq<(Seq<char>, DbValue)>, k: Seq<char>, p: int) -> bool {
    &&& 0 <= p <= b.len()
    &&& forall|i: int| 0 <= i < p ==> name_lt(#[trigger] b[i].0, k)
    &&& forall|i: int| p <= i < b.len() ==> name_lt(k, #[trigger] b[i].0)
}

pub open spec fn slot(b: Seq<(Seq<char>, DbValue)>, k: Seq<char>) -> int {
    choose|p: int| is_slot(b, k, p)
}

/// The bindings after binding `k` to `v`: the value of a bound key is
/// replaced in place, a new key goes to its place in name order.
pub open spec fn bound(b: Seq<(Seq<char>, DbValue)>, k: Seq<char>, v: DbValue) -> Seq<
    (Seq<char>, DbValue),
> {
    if has_key(b, k) {
        b.update(key_index(b, k), (k, v))
    } else {
        b.insert(slot(b, k), (k, v))
    }
}

/// Keys in strictly increasing name order, so each is bound at most once.
pub open spec fn sorted_keys(b: Seq<(Seq<char>, DbValue)>) -> bool {
    forall|i: int, j: int| 0 <= i < j < b.len() ==> name_lt(b[i].0, b[j].0)
}

pub open spec fn bindings_view(b: Seq<(String, DbValue)>) -> Seq<(Seq<char>, DbValue)> {
    b.map_values(|p: (String, DbValue)| (p.0@, p.1))
}

/// Values bound to variable names for one query, with the messages of the
/// values that could not be encoded.
pub struct Vars {
    err: Vec<String>,
    vars: Vec<(String, DbValue)>,
}

/// The model of a binder: its bindings in name order of their keys,
/// and its encoding failures in the order they happened.
pub struct VarsView {
    pub bindings: Seq<(Seq<char>, DbValue)>,
    pub errors: Seq<Seq<char>>,
}

impl View for Vars {
    type V = VarsView;

    closed spec fn view(&self) -> VarsView {
        VarsView {
            bindings: bindings_view(self.vars@),
            errors: self.err@.map_values(|s: String| s@),
        }
    }
}

impl Vars {
    pub open spec fn wf(&self) -> bool {
        sorted_keys(self@.bindings)
    }

    pub fn new() -> (r: Self)
        ensures
            r.wf(),
            r@.bindings.len() == 0,
            r@.errors.len() == 0,
    {
        let r = Vars { err: Vec::new(), vars: Vec::new() };
        assert(r@.bindings =~= Seq::empty());
        r
    }

    /// Records the outcome of encoding the value of `key`: binds the value,
    /// or keeps the message of the failure.
    pub fn put_encoded(self, key: &str, val: Result<DbValue, String>) -> (r: Self)
        requires
            self.wf(),
        ensures
            r.wf(),
            match val {
                Ok(v) => r@.bindings == bound(self@.bindings, key@, v) && r@.errors == self@.errors,
                Err(m) => r@.bindings == self@.bindings && r@.errors == self@.errors.push(m@),
            },
    {
        let mut this = self;
        match val {
            Ok(v) => {
                let ghost b = this@.bindings;
                let k = key.to_owned();
                let mut i: usize = 0;
                while i < this.vars.len() && name_less(&this.vars[i].0, &k)
                    invariant
                        i <= this.vars.len(),
                        this@.bindings == b,
                        k@ == key@,
                        forall|j: int| 0 <= j < i ==> name_lt(#[trigger] b[j].0, key@),
                    decreases this.vars.len() - i,
                {
                    assert(b[i as int].0 == this.vars@[i as int].0@);
                    i = i + 1;
                }
                if i < this.vars.len() && this.vars[i].0 == k {
                    assert(b[i as int].0 == this.vars@[i as int].0@);
                    assert(has_key(b, key@));
                    assert(key_index(b, key@) == i) by {
                        let c = key_index(b, key@);
                        assert(b[c].0 == key@);
                        if c < i {
                            lemma_name_lt_irreflexive(key@);
                        } else if c > i {
                            assert(name_lt(b[i as int].0, b[c].0));
                            lemma_name_lt_irreflexive(key@);
                        }
                    }
                    this.vars.set(i, (k, v));
                    assert(this@.bindings =~= bound(b, key@, v));
                    return this;
                }
                proof {
                    if i < b.len() {
                        assert(b[i as int].0 == this.vars@[i as int].0@);
                        lemma_name_lt_total(b[i as int].0, key@);
                    }
                    assert forall|j: int| i <= j < b.len() implies name_lt(key@, #[trigger] b[j].0) by {
                        if j > i {
                            lemma_name_lt_transitive(key@, b[i as int].0, b[j].0);
                        }
                    }
                    assert(is_slot(b, key@, i as int));
                    assert(!has_key(b, key@)) by {
                        if has_key(b, key@) {
                            let c = choose|c: int| 0 <= c < b.len() && b[c].0 == key@;
                            lemma_name_lt_irreflexive(key@);
                            if c < i {
                                assert(name_lt(b[c].0, key@));
                            } else {
                                assert(name_lt(key@, b[c].0));
                            }
                        }
                    }
                    let p = slot(b, key@);
                    assert(p == i) by {
                        assert(is_slot(b, key@, p));
                        if p < i {
                            assert(name_lt(b[p].0, key@));
                            assert(name_lt(key@, b[p].0));
                            lemma_name_lt_transitive(key@, b[p].0, key@);
                            lemma_name_lt_irreflexive(key@);
                        } else if p > i {
                            assert(name_lt(b[i as int].0, key@));
                            assert(name_lt(key@, b[i as int].0));
                            lemma_name_lt_transitive(key@, b[i as int].0, key@);
                            lemma_name_lt_irreflexive(key@);
                        }
                    }
                }
                this.vars.insert(i, (k, v));
                let ghost nb = this@.bindings;
                assert(nb =~= b.insert(i as int, (key@, v)));
                assert forall|x: int, y: int| 0 <= x < y < nb.len() implies name_lt(nb[x].0, nb[y].0) by {
                    if x < i && y == i {
                    } else if x == i && y > i {
                        assert(nb[y] == b[y - 1]);
                    } else {
                        let x0 = if x < i { x } else { x - 1 };
                        let y0 = if y < i { y } else { y - 1 };
                        assert(nb[x] == b[x0]);
                        assert(nb[y] == b[y0]);
                    }
                }
                this
            },
            Err(m) => {
                let ghost e = this@.errors;
                this.err.push(m);
                assert(this@.errors =~= e.push(m@));
                this
            },
        }
    }

    /// Encodes `val` and binds it to `key`; a value that cannot be encoded
    /// leaves the bindings as they were and adds the encoder's message to
    /// the failures.
    pub fn put<T: serde::Serialize + 'static>(self, key: &str, val: T) -> (r: Self)
        requires
            self.wf(),
        ensures
            r.wf(),
            r@.bindings == self@.bindings && r@.errors.len() == self@.errors.len() + 1
                && r@.errors.subrange(0, self@.errors.len() as int) == self@.errors
                || r@.errors == self@.errors && exists|v: DbValue|
                r@.bindings == bound(self@.bindings, key@, v),
    {
        let encoded = match encode_value(val) {
            Ok(v) => Ok(v),
            Err(e) => Err(error_message(&e)),
        };
        let ghost old_errors = self@.errors;
        let r = self.put_encoded(key, encoded);
        proof {
            if encoded is Err {
                assert(r@.errors.subrange(0, old_errors.len() as int) =~= old_errors);
            }
        }
        r
    }

    /// The bindings in name order of their keys, or, when some value could
    /// not be encoded, one message:
    /// the failures' messages joined with newlines.
    pub fn serialize(self) -> (r: Result<Vec<(String, DbValue)>, String>)
        ensures
            self@.errors.len() == 0 ==> (r matches Ok(b) && bindings_view(b@) == self@.bindings),
            self@.errors.len() > 0 ==> (r matches Err(m) && m@ == joined(self@.errors)),
    {
        if self.err.len() == 0 {
            return Ok(self.vars);
        }
        let mut msg: Vec<char> = Vec::new();
        crate::reconstruct::push_str(&mut msg, self.err[0].as_str());
        let mut i: usize = 1;
        assert(self@.errors.subrange(0, 1).drop_last() =~= Seq::<Seq<char>>::empty());
        while i < self.err.len()
            invariant
                1 <= i <= self.err.len(),
                msg@ == joined(self@.errors.subrange(0, i as int)),
            decreases self.err.len() - i,
        {
            msg.push('\n');
            crate::reconstruct::push_str(&mut msg, self.err[i].as_str());
            i = i + 1;
            let ghost s = self@.errors.subrange(0, i as int);
            assert(s.drop_last() =~= self@.errors.subrange(0, i - 1));
        }
        assert(self@.errors.subrange(0, i as int) =~= self@.errors);
        Err(crate::reconstruct::string_from_chars(&msg))
    }
}

} // verus!
