//! The requests the monitor makes: base URL, paths, pagination and error text.

use vstd::prelude::*;
use crate::batch::Batch;
use crate::text::{trim_end_slashes, trimmed_end_slashes};

verus! {

/// The API's base URL where none is given.
pub open spec fn default_api_base() -> Seq<char> {
    "https://api.openai.com/v1"@
}

/// How many batches one page of the list holds.
pub open spec fn page_limit_query() -> Seq<char> {
    "/batches?limit=100"@
}

/// The base URL: the one given, else the one from the environment, else the default.
pub fn resolve_base_url(given: Option<String>, env: Option<String>) -> (r: String)
    ensures
        r@ == match given {
            Some(u) => u@,
            None => match env {
                Some(e) => e@,
                None => default_api_base(),
            },
        },
{
    match given {
        Some(u) => u,
        None => match env {
            Some(e) => e,
            None => String::from_str("https://api.openai.com/v1"),
        },
    }
}

/// The URL of `path` under `base`: `base` without its trailing slashes, then `path`.
pub fn request_url(base: &str, path: &str) -> (r: String)
    ensures
        r@ == trim_end_slashes(base@) + path@,
{
    trimmed_end_slashes(base).concat(path)
}

/// The path of one page of the batch list, after the batch `after` if given.
pub fn batches_page_path(after: Option<&str>) -> (r: String)
    ensures
        r@ == match after {
            Some(a) => page_limit_query() + "&after="@ + a@,
            None => page_limit_query(),
        },
{
    match after {
        Some(a) => {
            proof {
                reveal_strlit("/batches?limit=100&after=");
                reveal_strlit("/batches?limit=100");
                reveal_strlit("&after=");
                assert("/batches?limit=100&after="@ =~= page_limit_query() + "&after="@);
            }
            String::from_str("/batches?limit=100&after=").concat(a)
        },
        None => String::from_str("/batches?limit=100"),
    }
}

/// The path that asks to cancel batch `id`.
pub fn cancel_path(id: &str) -> (r: String)
    ensures
        r@ == "/batches/"@ + id@ + "/cancel"@,
{
    String::from_str("/batches/").concat(id).concat("/cancel")
}

/// The message of a failed request with HTTP status `status` (as the status
/// line writes it) and response `body`: the message of the API's error
/// object where the body holds one, else the body.
pub fn api_error_text(status: &str, body: &str, error_message: Option<String>) -> (r: String)
    ensures
        r@ == "API error ("@ + status@ + "): "@ + match error_message {
            Some(m) => m@,
            None => body@,
        },
{
    let head = String::from_str("API error (").concat(status).concat("): ");
    match error_message {
        Some(m) => head.concat(m.as_str()),
        None => head.concat(body),
    }
}

/// Walks the pages of the batch list: asks for a page after the last batch
/// of the previous one while the API says there are more.
pub struct BatchPager {
    /// The batches of the pages received so far, in order.
    pub collected: Vec<Batch>,
    /// The id after which the next page starts.
    pub after: Option<String>,
    /// No more pages to ask for.
    pub done: bool,
}

impl BatchPager {
    /// A pager that has received nothing yet.
    pub fn new() -> (p: BatchPager)
        ensures
            p.collected@ == Seq::<Batch>::empty(),
            p.after is None,
            !p.done,
    {
        BatchPager { collected: Vec::new(), after: None, done: false }
    }

    /// The path of the next page to ask for, if any.
    pub fn next_path(&self) -> (r: Option<String>)
        ensures
            self.done ==> r is None,
            !self.done ==> (r matches Some(p) && p@ == match self.after {
                Some(a) => page_limit_query() + "&after="@ + a@,
                None => page_limit_query(),
            }),
    {
        if self.done {
            None
        } else {
            match &self.after {
                Some(a) => Some(batches_page_path(Some(a.as_str()))),
                None => Some(batches_page_path(None)),
            }
        }
    }

    /// Takes in a page: its batches, whether the API has more, and the id of
    /// its last batch. Paging goes on only where there are more and the last
    /// id is known.
    pub fn accept_page(&mut self, data: Vec<Batch>, has_more: bool, last_id: Option<String>)
        ensures
            final(self).collected@ == old(self).collected@ + data@,
            final(self).done == !(has_more && last_id is Some),
            has_more && last_id is Some ==> final(self).after == last_id,
            !(has_more && last_id is Some) ==> final(self).after == old(self).after,
    {
        let mut data = data;
        self.collected.append(&mut data);
        if has_more {
            if let Some(id) = last_id {
                self.after = Some(id);
                self.done = false;
                return;
            }
        }
        self.done = true;
    }

    /// All batches received.
    pub fn into_batches(self) -> (r: Vec<Batch>)
        ensures
            r@ == self.collected@,
    {
        self.collected
    }
}

} // verus!
