//! The body of a service response.
use vstd::prelude::*;
use vstd::string::*;

verus! {

/// A response: a code, a message and, on success, optional data.
#[derive(Debug)]
pub struct Response<T> {
    code: u32,
    msg: String,
    data: Option<T>,
}

/// A response as its code, its message's text and its data.
impl<T> View for Response<T> {
    type V = (u32, Seq<char>, Option<T>);

    closed spec fn view(&self) -> (u32, Seq<char>, Option<T>) {
        (self.code, self.msg@, self.data)
    }
}

impl<T> Response<T> {
    /// A successful response with message `success`.
    pub fn success(code: u32, data: Option<T>) -> (r: Self)
        ensures
            r@ == (code, "success"@, data),
    {
        Self { code, msg: String::from_str("success"), data }
    }

    /// A failed response with the given message and no data.
    pub fn fail(code: u32, msg: String) -> (r: Self)
        ensures
            r@ == (code, msg@, None::<T>),
    {
        Self { code, msg, data: None }
    }

    /// The response's code.
    pub fn code(&self) -> (r: u32)
        ensures
            r == self@.0,
    {
        self.code
    }

    /// The response's message.
    pub fn msg(&self) -> (r: &str)
        ensures
            r@ == self@.1,
    {
        self.msg.as_str()
    }

    /// The response's data, if any.
    pub fn data(&self) -> (r: Option<&T>)
        ensures
            r == (match self@.2 { Some(d) => Some(&d), None => None::<&T> }),
    {
        match &self.data {
            Some(d) => Some(d),
            None => None,
        }
    }

    /// The code, message and data, taken apart.
    pub fn into_parts(self) -> (r: (u32, String, Option<T>))
        ensures
            r.0 == self@.0,
            r.1@ == self@.1,
            r.2 == self@.2,
    {
        (self.code, self.msg, self.data)
    }
}

} // verus!
