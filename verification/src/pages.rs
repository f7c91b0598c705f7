use vstd::prelude::*;
use crate::status::StatusCode;

verus! {

/// The dashboard page: the page file's content when it could be read, and
/// otherwise a short notice that it is missing.
pub fn dashboard_page(read: Option<String>) -> (r: String)
    ensures
        read matches Some(c) ==> r@ == c@,
        read is None ==> r@ == "<h1>Dashboard not found</h1>"@,
{
    match read {
        Some(content) => content,
        None => "<h1>Dashboard not found</h1>".to_owned(),
    }
}

/// A static page (login, events): the page file's content when it could be
/// read, and otherwise `NotFound`.
pub fn static_page(read: Option<String>) -> (r: Result<String, StatusCode>)
    ensures
        read matches Some(c) ==> (r matches Ok(p) && p@ == c@),
        read is None ==> r == Err::<String, StatusCode>(StatusCode::NotFound),
{
    match read {
        Some(content) => Ok(content),
        None => Err(StatusCode::NotFound),
    }
}

} // verus!
