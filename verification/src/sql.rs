//! SQL statements as text plus positional arguments, built piece by piece.
use crate::text::{chars_of, extend_chars, string_from_chars};
use vstd::prelude::*;

verus! {

/// A positional statement argument.
#[derive(Debug, Clone, PartialEq, Eq)]
pub enum SqlValue {
    Integer(i64),
    Text(String),
    Blob(Vec<u8>),
    Null,
}

/// What an argument stands for, in specifications.
pub enum SqlArg {
    Integer(int),
    Text(Seq<char>),
    Blob(Seq<u8>),
    Null,
}

impl View for SqlValue {
    type V = SqlArg;

    open spec fn view(&self) -> SqlArg {
        match self {
            SqlValue::Integer(i) => SqlArg::Integer(*i as int),
            SqlValue::Text(s) => SqlArg::Text(s@),
            SqlValue::Blob(b) => SqlArg::Blob(b@),
            SqlValue::Null => SqlArg::Null,
        }
    }
}

/// The views of a list of arguments.
pub open spec fn arg_views(v: Seq<SqlValue>) -> Seq<SqlArg> {
    v.map_values(|a: SqlValue| a@)
}

/// A statement: its text with `?` placeholders and the arguments bound to them in order.
#[derive(Debug, Clone)]
pub struct SqlQuery {
    pub sql: String,
    pub args: Vec<SqlValue>,
}

/// A statement under construction.
pub struct SqlBuilder {
    pub text: Vec<char>,
    pub args: Vec<SqlValue>,
}

/// Integer arguments for a list of ids.
pub open spec fn int_args(v: Seq<i32>) -> Seq<SqlArg> {
    v.map_values(|i: i32| SqlArg::Integer(i as int))
}

/// Text arguments for a list of strings.
pub open spec fn text_args(v: Seq<String>) -> Seq<SqlArg> {
    v.map_values(|s: String| SqlArg::Text(s@))
}

/// An optional id as an argument: the integer, or NULL.
pub open spec fn opt_int_arg(v: Option<i32>) -> SqlArg {
    match v {
        Some(i) => SqlArg::Integer(i as int),
        None => SqlArg::Null,
    }
}

/// The optional id as an argument.
pub fn opt_int_value(v: Option<i32>) -> (r: SqlValue)
    ensures
        r@ == opt_int_arg(v),
{
    match v {
        Some(i) => SqlValue::Integer(i as i64),
        None => SqlValue::Null,
    }
}

/// `n` placeholders separated by commas.
pub open spec fn placeholders(n: nat) -> Seq<char>
    decreases n,
{
    if n == 0 {
        seq![]
    } else if n == 1 {
        seq!['?']
    } else {
        placeholders((n - 1) as nat) + seq![',', '?']
    }
}

impl SqlBuilder {
    pub fn new() -> (b: SqlBuilder)
        ensures
            b.text@ == Seq::<char>::empty(),
            arg_views(b.args@) == Seq::<SqlArg>::empty(),
    {
        let b = SqlBuilder { text: Vec::new(), args: Vec::new() };
        assert(arg_views(b.args@) =~= Seq::<SqlArg>::empty());
        b
    }

    /// Appends text.
    pub fn push_str(&mut self, s: &str)
        ensures
            final(self).text@ == old(self).text@ + s@,
            final(self).args@ == old(self).args@,
    {
        let c = chars_of(s);
        extend_chars(&mut self.text, c.as_slice());
    }

    /// Appends the characters of a string value.
    pub fn push_string(&mut self, s: &String)
        ensures
            final(self).text@ == old(self).text@ + s@,
            final(self).args@ == old(self).args@,
    {
        self.push_str(s.as_str());
    }

    /// Binds one more argument.
    pub fn bind(&mut self, v: SqlValue)
        ensures
            final(self).text@ == old(self).text@,
            arg_views(final(self).args@) == arg_views(old(self).args@).push(v@),
    {
        let ghost vv = v@;
        self.args.push(v);
        assert(arg_views(self.args@) =~= arg_views(old(self).args@).push(vv));
    }

    /// Appends `n` comma-separated placeholders.
    pub fn push_placeholders(&mut self, n: usize)
        ensures
            final(self).text@ == old(self).text@ + placeholders(n as nat),
            final(self).args@ == old(self).args@,
    {
        let mut k: usize = 0;
        while k < n
            invariant
                k <= n,
                self.text@ == old(self).text@ + placeholders(k as nat),
                self.args@ == old(self).args@,
            decreases n - k,
        {
            if k == 0 {
                self.text.push('?');
            } else {
                self.text.push(',');
                self.text.push('?');
            }
            k = k + 1;
            assert(self.text@ =~= old(self).text@ + placeholders(k as nat));
        }
    }

    /// Appends text and binds one argument.
    pub fn push_bound(&mut self, s: &str, v: SqlValue)
        ensures
            final(self).text@ == old(self).text@ + s@,
            arg_views(final(self).args@) == arg_views(old(self).args@).push(v@),
    {
        self.push_str(s);
        self.bind(v);
    }

    /// Binds each of `ids` in turn.
    pub fn bind_ints(&mut self, ids: &Vec<i32>)
        ensures
            final(self).text@ == old(self).text@,
            arg_views(final(self).args@) == arg_views(old(self).args@) + int_args(ids@),
    {
        let mut k: usize = 0;
        while k < ids.len()
            invariant
                k <= ids.len(),
                self.text@ == old(self).text@,
                arg_views(self.args@) == arg_views(old(self).args@) + int_args(ids@.take(k as int)),
            decreases ids.len() - k,
        {
            self.bind(SqlValue::Integer(ids[k] as i64));
            k = k + 1;
            assert(int_args(ids@.take(k as int)) =~= int_args(ids@.take(k - 1)).push(
                SqlArg::Integer(ids@[k - 1] as int),
            ));
        }
        assert(ids@.take(ids.len() as int) =~= ids@);
    }

    /// Binds each of `v` in turn as text.
    pub fn bind_texts(&mut self, v: &Vec<String>)
        ensures
            final(self).text@ == old(self).text@,
            arg_views(final(self).args@) == arg_views(old(self).args@) + text_args(v@),
    {
        let mut k: usize = 0;
        while k < v.len()
            invariant
                k <= v.len(),
                self.text@ == old(self).text@,
                arg_views(self.args@) == arg_views(old(self).args@) + text_args(v@.take(k as int)),
            decreases v.len() - k,
        {
            self.bind(SqlValue::Text(v[k].clone()));
            k = k + 1;
            assert(text_args(v@.take(k as int)) =~= text_args(v@.take(k - 1)).push(
                SqlArg::Text(v@[k - 1]@),
            ));
        }
        assert(v@.take(v.len() as int) =~= v@);
    }

    /// The finished statement.
    pub fn finish(self) -> (q: SqlQuery)
        ensures
            q.sql@ == self.text@,
            q.args@ == self.args@,
    {
        SqlQuery { sql: string_from_chars(self.text.as_slice()), args: self.args }
    }
}

/// A statement of the given text and arguments.
pub fn statement(sql: &str, args: Vec<SqlValue>) -> (q: SqlQuery)
    ensures
        q.sql@ == sql@,
        q.args@ == args@,
{
    SqlQuery { sql: String::from_str(sql), args }
}

} // verus!
