//! Persisted settings.
use vstd::prelude::*;
use vstd::string::*;

verus! {

/// Output image format of the watermark remover.
#[derive(Debug, Clone, Copy, PartialEq, Eq, Structural)]
pub enum ImageFormat {
    Jpeg,
    Png,
}

/// User settings: where output goes, in which format, and the vendor session token.
#[derive(Debug, Clone)]
pub struct Config {
    pub output_dir: String,
    pub output_format: ImageFormat,
    pub output_optimize: bool,
    pub bili_cookie: String,
}

/// The cookie header value for a session token.
pub open spec fn cookie_of(session: Seq<char>) -> Seq<char> {
    "SESSDATA="@ + session
}

impl Config {
    /// The settings used when none are stored: output next to the resources, JPEG, no
    /// grayscale optimisation, no session.
    pub fn default_for(resource_dir: &str) -> (r: Config)
        ensures
            r.output_dir@ == resource_dir@,
            r.output_format == ImageFormat::Jpeg,
            !r.output_optimize,
            r.bili_cookie@ == Seq::<char>::empty(),
    {
        Config {
            output_dir: String::from_str(resource_dir),
            output_format: ImageFormat::Jpeg,
            output_optimize: false,
            bili_cookie: String::new(),
        }
    }

    /// The `cookie` header value carried by every vendor request.
    pub fn get_cookie(&self) -> (r: String)
        ensures
            r@ == cookie_of(self.bili_cookie@),
    {
        let mut s = String::new();
        s.append("SESSDATA=");
        s.append(self.bili_cookie.as_str());
        proof { reveal_strlit("SESSDATA="); }
        s
    }
}

} // verus!
