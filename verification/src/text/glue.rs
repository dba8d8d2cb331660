//! Putting texts together.

use vstd::prelude::*;
use vstd::string::StringExecFns;

verus! {

pub fn glue2(a: &str, b: &str) -> (out: String)
    ensures
        out@ == a@ + b@,
{
    let mut out = a.to_owned();
    out.append(b);
    out
}

pub fn glue3(a: &str, b: &str, c: &str) -> (out: String)
    ensures
        out@ == a@ + b@ + c@,
{
    let mut out = glue2(a, b);
    out.append(c);
    out
}

pub fn glue4(a: &str, b: &str, c: &str, d: &str) -> (out: String)
    ensures
        out@ == a@ + b@ + c@ + d@,
{
    let mut out = glue3(a, b, c);
    out.append(d);
    out
}

pub fn glue5(a: &str, b: &str, c: &str, d: &str, e: &str) -> (out: String)
    ensures
        out@ == a@ + b@ + c@ + d@ + e@,
{
    let mut out = glue4(a, b, c, d);
    out.append(e);
    out
}

} // verus!
