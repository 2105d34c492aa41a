//! The answers of the GB28181 HTTP control API. Every request carries the
//! shared secret; a request with another secret gets code -1. The caller
//! decodes the form, runs the sessions and encodes the JSON answers.
use vstd::prelude::*;

verus! {

/// The form every API request carries.
pub struct RequestFormData {
    pub secret: String,
    pub schema: Option<String>,
    pub stream_id: Option<String>,
    pub re_use_port: Option<String>,
    pub port: Option<u16>,
    pub tcp_mode: Option<String>,
    pub need_dump: Option<bool>,
}

/// What `open_rtp_server` asks the caller to do: open a session on the
/// port (0: any) for the stream, dumping its packets or not.
pub struct OpenRtpPlan {
    pub local_port: u16,
    pub stream_name: String,
    pub need_dump: bool,
}

/// A refused request: its code and message.
pub struct ApiRefusal {
    pub code: i16,
    pub err_msg: &'static str,
}

pub struct ApiService {
    pub secret: String,
}

impl ApiService {
    pub fn new(secret: String) -> (a: Self)
        ensures
            a.secret@ == secret@,
    {
        ApiService { secret }
    }

    /// The code of the answers that only check the secret
    /// (`getServerConfig`, `setServerConfig`, `getMediaList`, `getRtpInfo`,
    /// `clostRtpServer`): 0 with the right secret, else -1.
    pub fn secret_code(&self, request_data: &RequestFormData) -> (code: i16)
        ensures
            code == (if request_data.secret@ == self.secret@ { 0i16 } else { -1i16 }),
    {
        if request_data.secret == self.secret {
            0
        } else {
            -1
        }
    }

    /// `openRtpServer`: with a wrong secret, code -1; without a stream
    /// name, code -2; else the session to open, on the requested port (0
    /// when none is given), dumping only when asked to.
    pub fn open_rtp_server(&self, request_data: &RequestFormData) -> (r: Result<
        OpenRtpPlan,
        ApiRefusal,
    >)
        ensures
            request_data.secret@ != self.secret@ ==> (r matches Err(e) && e.code == -1
                && e.err_msg@ == "The secret is not correct"@),
            request_data.secret@ == self.secret@ && request_data.stream_id is None ==> (r matches Err(
                e,
            ) && e.code == -2 && e.err_msg@ == "The stream name should not be empty"@),
            request_data.secret@ == self.secret@ && request_data.stream_id is Some ==> (r matches Ok(
                p,
            ) && p.stream_name@ == request_data.stream_id->0@ && p.local_port == (match request_data.port {
                Some(port) => port,
                None => 0u16,
            }) && p.need_dump == (match request_data.need_dump {
                Some(d) => d,
                None => false,
            })),
    {
        if request_data.secret != self.secret {
            return Err(ApiRefusal { code: -1, err_msg: "The secret is not correct" });
        }
        match &request_data.stream_id {
            None => Err(ApiRefusal { code: -2, err_msg: "The stream name should not be empty" }),
            Some(stream_id) => {
                let local_port = match request_data.port {
                    Some(port) => port,
                    None => 0,
                };
                let need_dump = match request_data.need_dump {
                    Some(dump) => dump,
                    None => false,
                };
                Ok(OpenRtpPlan { local_port, stream_name: stream_id.clone(), need_dump })
            },
        }
    }

    /// `clostRtpServer`: the code of the answer (0 with the right secret,
    /// else -1) and the stream whose session is stopped, which is stopped
    /// whatever the secret.
    pub fn close_rtp_server<'a>(&self, request_data: &'a RequestFormData) -> (r: (i16, &'a String))
        requires
            request_data.stream_id is Some,
        ensures
            r.0 == (if request_data.secret@ == self.secret@ { 0i16 } else { -1i16 }),
            r.1@ == request_data.stream_id->0@,
    {
        let code = self.secret_code(request_data);
        match &request_data.stream_id {
            Some(stream_id) => (code, stream_id),
            None => (code, &request_data.secret),
        }
    }
}

} // verus!
