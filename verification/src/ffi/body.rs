//! Bodies of the C interface.

use std::task::Context;

use bytes::Bytes;
use vstd::prelude::*;
use vstd::string::StringExecFns;

use crate::body::incoming::{Frame, Incoming};
use crate::common::ascii::{signed_decimal, signed_decimal_text};
use crate::common::task::Polled;
use crate::error::{Cause, Error, Kind, User};
use crate::ffi::task::{HYPER_POLL_ERROR, HYPER_POLL_PENDING, HYPER_POLL_READY};
use crate::outside::bytes_crate::{bytes_slice, content};

verus! {

/// Goes on with an iteration.
pub const HYPER_ITER_CONTINUE: i32 = 0;

/// Stops an iteration.
pub const HYPER_ITER_BREAK: i32 = 1;

/// A streaming HTTP body.
pub struct hyper_body(pub Incoming);

/// A buffer of bytes.
#[derive(Debug)]
pub struct hyper_buf(pub Bytes);

impl hyper_buf {
    /// The bytes of the buffer.
    pub open spec fn bytes(&self) -> Seq<u8> {
        content(self.0)
    }

    /// A copy of some bytes.
    pub fn copy(data: &[u8]) -> (buf: hyper_buf)
        ensures
            buf.bytes() == data@,
    {
        hyper_buf(Bytes::copy_from_slice(data))
    }

    /// The bytes of the buffer.
    pub fn as_slice(&self) -> (s: &[u8])
        ensures
            s@ == self.bytes(),
    {
        bytes_slice(&self.0)
    }

    /// The number of bytes in the buffer.
    pub fn len(&self) -> (n: usize)
        ensures
            n == self.bytes().len(),
    {
        self.0.len()
    }
}

/// The answers that an application has given, the first first: the address that it was
/// asked with, its code, and the buffer if it provided one.
pub struct Answers {
    pub given: Seq<(usize, i32, Option<hyper_buf>)>,
}

/// The application's way to provide the data of a body.
pub trait DataFunc: Send + Sync {
    /// The answers that it has given. They are only spoken of: nothing calls this.
    spec fn answers(&self) -> Answers;

    /// Asks for the next piece of data: a code, one of [`HYPER_POLL_READY`],
    /// [`HYPER_POLL_PENDING`] and [`HYPER_POLL_ERROR`], and a buffer if one was
    /// provided.
    fn call(&mut self, userdata: usize, cx: &mut Context<'_>) -> (r: (i32, Option<hyper_buf>))
        ensures
            final(self).answers().given == old(self).answers().given.push((userdata, r.0, r.1)),
    ;
}

/// A body whose data the application provides.
pub struct UserBody {
    /// Asked for each piece of data; without it, there is none.
    pub data_func: Option<Box<dyn DataFunc>>,
    /// The address that is handed to `data_func`.
    pub userdata: usize,
}

/// What came of asking the application for data.
pub open spec fn user_data_is(code: i32, out: Option<hyper_buf>, r: Polled<Frame, Error>) -> bool {
    if code == HYPER_POLL_READY {
        match out {
            None => r is End,
            Some(buf) => r == Polled::<Frame, Error>::Item(Frame::Data(buf.0)),
        }
    } else if code == HYPER_POLL_PENDING {
        r is Pending
    } else if code == HYPER_POLL_ERROR {
        r is Failed && r->Failed_0.is_bare(Kind::User(User::BodyWriteAborted))
    } else {
        r is Failed && r->Failed_0.says(
            Kind::BodyWrite,
            "unexpected hyper_body_data_func return code "@ + signed_decimal(code as int),
        )
    }
}

/// What came of asking the application for data: it says whether it is ready,
/// and a body that is ready without a buffer is complete.
pub fn user_data(code: i32, out: Option<hyper_buf>) -> (r: Polled<Frame, Error>)
    ensures
        user_data_is(code, out, r),
{
    if code == HYPER_POLL_READY {
        match out {
            None => Polled::End,
            Some(buf) => Polled::Item(Frame::Data(buf.0)),
        }
    } else if code == HYPER_POLL_PENDING {
        Polled::Pending
    } else if code == HYPER_POLL_ERROR {
        Polled::Failed(Error::new_body_write_aborted())
    } else {
        let mut text: String = String::from_str("unexpected hyper_body_data_func return code ");
        let digits: String = signed_decimal_text(code as i64);
        text.append(digits.as_str());
        Polled::Failed(Error::new_body_write(Cause::message(text)))
    }
}

impl UserBody {
    /// Whether asking the application for the next piece of data makes another of the
    /// body and gives this: it was asked once, with its address, and this follows from
    /// its answer; without a way to ask, the body is as before and at its end.
    pub open spec fn gives_frame(&self, after: UserBody, r: Polled<Frame, Error>) -> bool {
        &&& after.userdata == self.userdata
        &&& match self.data_func {
            Some(data_func) => after.data_func is Some && exists|
                code: i32,
                out: Option<hyper_buf>,
            |
                after.data_func->0.answers().given == data_func.answers().given.push(
                    (self.userdata, code, out),
                ) && #[trigger] user_data_is(code, out, r),
            None => after.data_func is None && r is End,
        }
    }

    /// A body without data.
    pub fn new() -> (body: UserBody)
        ensures
            body.data_func is None,
            body.userdata == 0,
    {
        UserBody { data_func: None, userdata: 0 }
    }

    /// Asks the application for the next piece of data. Without a way to ask, the
    /// body is complete.
    pub fn poll_data(&mut self, cx: &mut Context<'_>) -> (r: Polled<Frame, Error>)
        ensures
            old(self).gives_frame(*final(self), r),
    {
        let userdata: usize = self.userdata;
        match &mut self.data_func {
            Some(data_func) => {
                let (code, out) = data_func.call(userdata, cx);
                user_data(code, out)
            },
            None => user_data(HYPER_POLL_READY, None),
        }
    }
}

/// What a task does next that waits for data of a body.
pub enum DataStep {
    /// Waits.
    Wait,
    /// Polls the body again.
    Again,
    /// Is done: with a buffer, or without one at the end of the body.
    Finished(std::result::Result<Option<hyper_buf>, Error>),
}

/// What a task does next that hands the data of a body to a callback.
pub enum ForeachStep {
    /// Waits.
    Wait,
    /// Polls the body again.
    Again,
    /// Hands a buffer to the callback.
    Call(hyper_buf),
    /// Is done.
    Finished(std::result::Result<(), Error>),
}

/// What the task that waits for the next buffer does with what it polled: frames that
/// are no data are passed over.
pub open spec fn spec_data_step(polled: Polled<Frame, Error>) -> DataStep {
    match polled {
        Polled::Pending => DataStep::Wait,
        Polled::End => DataStep::Finished(Ok(None)),
        Polled::Item(Frame::Data(data)) => DataStep::Finished(Ok(Some(hyper_buf(data)))),
        Polled::Item(Frame::Trailers(_)) => DataStep::Again,
        Polled::Failed(err) => DataStep::Finished(Err(err)),
    }
}

/// What the task that hands every buffer to a callback does with what it polled.
pub open spec fn spec_foreach_step(polled: Polled<Frame, Error>) -> ForeachStep {
    match polled {
        Polled::Pending => ForeachStep::Wait,
        Polled::End => ForeachStep::Finished(Ok(())),
        Polled::Item(Frame::Data(data)) => ForeachStep::Call(hyper_buf(data)),
        Polled::Item(Frame::Trailers(_)) => ForeachStep::Again,
        Polled::Failed(err) => ForeachStep::Finished(Err(err)),
    }
}

/// Whether this is what that task does once the callback returned a code.
pub open spec fn foreach_called_is(code: i32, step: ForeachStep) -> bool {
    if code == HYPER_ITER_CONTINUE {
        step is Again
    } else {
        step is Finished && step->Finished_0 is Err && step->Finished_0->Err_0.is_bare(
            Kind::User(User::AbortedByCallback),
        )
    }
}

impl hyper_body {
    /// A body that the application fills.
    pub fn new() -> (body: hyper_body)
        ensures
            body.0.user_body() is Some,
            body.0.user_body()->0.data_func is None,
            body.0.user_body()->0.userdata == 0,
    {
        hyper_body(Incoming::ffi())
    }

    /// What the task that waits for the next buffer does with what it polled:
    /// frames that are no data are passed over.
    pub fn data_step(polled: Polled<Frame, Error>) -> (step: DataStep)
        ensures
            step == spec_data_step(polled),
    {
        match polled {
            Polled::Pending => DataStep::Wait,
            Polled::End => DataStep::Finished(Ok(None)),
            Polled::Item(Frame::Data(data)) => DataStep::Finished(Ok(Some(hyper_buf(data)))),
            Polled::Item(Frame::Trailers(_)) => DataStep::Again,
            Polled::Failed(err) => DataStep::Finished(Err(err)),
        }
    }

    /// What the task that hands every buffer to a callback does with what it
    /// polled.
    pub fn foreach_step(polled: Polled<Frame, Error>) -> (step: ForeachStep)
        ensures
            step == spec_foreach_step(polled),
    {
        match polled {
            Polled::Pending => ForeachStep::Wait,
            Polled::End => ForeachStep::Finished(Ok(())),
            Polled::Item(Frame::Data(data)) => ForeachStep::Call(hyper_buf(data)),
            Polled::Item(Frame::Trailers(_)) => ForeachStep::Again,
            Polled::Failed(err) => ForeachStep::Finished(Err(err)),
        }
    }

    /// What that task does once the callback returned: it goes on only where the
    /// callback said so.
    pub fn foreach_called(code: i32) -> (step: ForeachStep)
        ensures
            foreach_called_is(code, step),
    {
        if code == HYPER_ITER_CONTINUE {
            ForeachStep::Again
        } else {
            ForeachStep::Finished(Err(Error::new_user_aborted_by_callback()))
        }
    }
}

/// What follows from an answer of the application: with the code 0, its buffer as data,
/// unchanged, or the end where it gives none; with 1, a wait; with 3, the failure of a
/// body that was given up; with any other, the failure of a body that could not be
/// written, which names the code.
pub proof fn law_answers_of_the_application(
    code: i32,
    out: Option<hyper_buf>,
    r: Polled<Frame, Error>,
)
    requires
        user_data_is(code, out, r),
    ensures
        code == 0 && out is Some ==> r == Polled::<Frame, Error>::Item(Frame::Data(out->Some_0.0)),
        code == 0 && out is None ==> r is End,
        code == 1 ==> r is Pending,
        code == 3 ==> r is Failed && r->Failed_0.spec_kind() == Kind::User(User::BodyWriteAborted)
            && r->Failed_0.chain().len() == 0,
        code != 0 && code != 1 && code != 3 ==> r is Failed && r->Failed_0.spec_kind()
            == Kind::BodyWrite && r->Failed_0.chain().len() == 1 && r->Failed_0.chain()[0]
            is Message && signed_decimal(code as int) == r->Failed_0.chain()[0]->Message_0@.skip(
            44,
        ),
{
    reveal_strlit("unexpected hyper_body_data_func return code ");
    if code != 0 && code != 1 && code != 3 {
        let text = r->Failed_0.chain()[0]->Message_0@;
        assert(text.skip(44) =~= signed_decimal(code as int));
    }
}

/// Each piece of data is given to the application once and unchanged: to the one who
/// waits for it as the value of the task, to a callback as a buffer. Trailers are passed
/// over, the end and a failure end the task, and nothing else does.
pub proof fn law_data_tasks(polled: Polled<Frame, Error>, data: Bytes, err: Error)
    ensures
        spec_data_step(Polled::Item(Frame::Data(data))) == DataStep::Finished(
            Ok(Some(hyper_buf(data))),
        ),
        spec_foreach_step(Polled::Item(Frame::Data(data))) == ForeachStep::Call(hyper_buf(data)),
        spec_data_step(Polled::End) == DataStep::Finished(Ok(None)),
        spec_foreach_step(Polled::End) == ForeachStep::Finished(Ok(())),
        spec_data_step(Polled::Failed(err)) == DataStep::Finished(Err(err)),
        spec_foreach_step(Polled::Failed(err)) == ForeachStep::Finished(Err(err)),
        spec_data_step(polled) is Wait <==> polled is Pending,
        spec_foreach_step(polled) is Wait <==> polled is Pending,
        spec_data_step(polled) is Again <==> polled is Item && polled->Item_0 is Trailers,
        spec_foreach_step(polled) is Again <==> polled is Item && polled->Item_0 is Trailers,
{
}

/// A callback goes on with the code 0 alone; with any other the task ends, as one that
/// was stopped by a callback.
pub proof fn law_callbacks_can_stop(code: i32, step: ForeachStep)
    requires
        foreach_called_is(code, step),
    ensures
        code == 0 <==> step is Again,
        code != 0 ==> step is Finished && step->Finished_0 is Err
            && step->Finished_0->Err_0.spec_kind() == Kind::User(User::AbortedByCallback),
{
}

} // verus!
