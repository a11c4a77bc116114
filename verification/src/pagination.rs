//! The window of a listing that a request asks for, and how it is read from
//! the request's query parameters.

use vstd::prelude::*;
use vstd::hash_map::StringHashMap;
use crate::error::Error;
use crate::index::{parse_index, parsed_index};
use crate::question::Question;

verus! {

/// A window of a listing: the positions from `start` up to, not including,
/// `end`.
#[derive(Debug, Clone, Copy, PartialEq, Eq, Structural)]
pub struct Pagination {
    pub start: usize,
    pub end: usize,
}

impl Pagination {
    /// Whether the window lies within a listing of `len` questions.
    pub open spec fn fits(self, len: nat) -> bool {
        self.start <= self.end && self.end <= len
    }

    /// Tells whether the window lies within a listing of `len` questions.
    pub fn fits_in(&self, len: usize) -> (r: bool)
        ensures
            r == self.fits(len as nat),
    {
        self.start <= self.end && self.end <= len
    }

    /// The questions of `all` at the positions of the window, in their order.
    pub fn slice(&self, all: Vec<Question>) -> (page: Vec<Question>)
        requires
            self.fits(all@.len()),
        ensures
            page@ == all@.subrange(self.start as int, self.end as int),
    {
        let mut front = all;
        front.truncate(self.end);
        let page = front.split_off(self.start);
        assert(page@ =~= all@.subrange(self.start as int, self.end as int));
        page
    }
}

/// The window that query parameters ask for.
///
/// Both `start` and `end` must be present, else the parameters are
/// incomplete. Each must denote an index; where both do not, the complaint
/// is the one about `start`. Other parameters are ignored.
pub open spec fn requested_window(params: Map<Seq<char>, String>) -> Result<Pagination, Error> {
    if params.contains_key("start"@) && params.contains_key("end"@) {
        match (parsed_index(params["start"@]@), parsed_index(params["end"@]@)) {
            (Err(kind), _) => Err(Error::ParseError(kind)),
            (Ok(_), Err(kind)) => Err(Error::ParseError(kind)),
            (Ok(start), Ok(end)) => Ok((Pagination { start, end })),
        }
    } else {
        Err(Error::MissingParameters)
    }
}

/// Reads the window that `params` asks for.
pub fn extract_pagination(params: StringHashMap<String>) -> (r: Result<Pagination, Error>)
    ensures
        r == requested_window(params@),
{
    match (params.get("start"), params.get("end")) {
        (Some(start_text), Some(end_text)) => {
            let start = match parse_index(start_text.as_str()) {
                Ok(index) => index,
                Err(kind) => {
                    return Err(Error::ParseError(kind));
                },
            };
            let end = match parse_index(end_text.as_str()) {
                Ok(index) => index,
                Err(kind) => {
                    return Err(Error::ParseError(kind));
                },
            };
            Ok(Pagination { start, end })
        },
        _ => Err(Error::MissingParameters),
    }
}

} // verus!
