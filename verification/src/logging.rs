//! Where the dashboard writes its log files.
use vstd::prelude::*;
use std::sync::{Arc, Mutex};
use crate::systemd::{decode_lossy, utf8_lossy};
use crate::text::{append_chars, chars_of, string_from_chars};

verus! {

broadcast use vstd::string::group_string_axioms;

/// `base` extended by the relative component `comp` (`Path::join` on Unix):
/// a `/` goes between them unless `base` is empty or already ends with one.
pub open spec fn path_join(base: Seq<char>, comp: Seq<char>) -> Seq<char> {
    if base.len() == 0 || base.last() == '/' {
        base + comp
    } else {
        base + "/"@ + comp
    }
}

fn join_component(base: &mut Vec<char>, comp: &str)
    ensures
        final(base)@ == path_join(old(base)@, comp@),
{
    let n = base.len();
    if n > 0 && base[n - 1] != '/' {
        base.push('/');
        assert(base@ =~= old(base)@ + "/"@) by {
            reveal_strlit("/");
        }
    }
    append_chars(base, chars_of(comp).as_slice());
}

/// The log directory for the values of `XDG_DATA_HOME` and `HOME` (`None`
/// when unset or not Unicode): `$XDG_DATA_HOME/systemd-dashboard` when that
/// is set and not empty, else `$HOME/.local/share/systemd-dashboard`.
pub open spec fn log_dir_for(xdg: Option<Seq<char>>, home: Option<Seq<char>>) -> Result<
    Seq<char>,
    Seq<char>,
> {
    match xdg {
        Some(x) if x.len() > 0 => Ok(path_join(x, "systemd-dashboard"@)),
        _ => match home {
            Some(h) => Ok(
                path_join(path_join(path_join(h, ".local"@), "share"@), "systemd-dashboard"@),
            ),
            None => Err("cannot resolve log directory: neither XDG_DATA_HOME nor HOME is set"@),
        },
    }
}

/// The view of an optional string.
pub open spec fn opt_string_view(o: Option<String>) -> Option<Seq<char>> {
    match o {
        Some(s) => Some(s@),
        None => None,
    }
}

/// The log directory for the values of `XDG_DATA_HOME` and `HOME`.
pub fn log_dir_from_env(xdg: Option<String>, home: Option<String>) -> (r: Result<String, String>)
    ensures
        crate::systemd::result_view(r) == log_dir_for(opt_string_view(xdg), opt_string_view(home)),
{
    if let Some(x) = &xdg {
        if !x.as_str().is_empty() {
            let mut p = chars_of(x.as_str());
            join_component(&mut p, "systemd-dashboard");
            return Ok(string_from_chars(p.as_slice()));
        }
    }
    match home {
        Some(h) => {
            let mut p = chars_of(h.as_str());
            join_component(&mut p, ".local");
            join_component(&mut p, "share");
            join_component(&mut p, "systemd-dashboard");
            Ok(string_from_chars(p.as_slice()))
        },
        None => Err(
            "cannot resolve log directory: neither XDG_DATA_HOME nor HOME is set".to_owned(),
        ),
    }
}

// ---------------------------------------------------------------------------
// In-memory log capture
// ---------------------------------------------------------------------------

/// `std::sync::Mutex`, carried as an opaque value.
#[verifier::external_type_specification]
#[verifier::external_body]
#[verifier::reject_recursive_types(T)]
pub struct ExMutex<T: ?Sized>(Mutex<T>);

/// `Mutex::new`: a mutex holding `v`.
#[verifier::external_body]
fn mutex_new(v: Vec<u8>) -> Mutex<Vec<u8>> {
    Mutex::new(v)
}

/// `Mutex::lock`, then a copy of the bytes held. What the buffer holds
/// depends on every write made through any handle, so nothing is stated of
/// it; the lock panics only if a writer panicked while holding it.
#[verifier::external_body]
fn locked_bytes(m: &Mutex<Vec<u8>>) -> Vec<u8> {
    m.lock().expect("test writer mutex poisoned").clone()
}

/// `Mutex::lock`, then `bytes` appended to the bytes held.
#[verifier::external_body]
fn locked_append(m: &Mutex<Vec<u8>>, bytes: &[u8]) {
    m.lock().expect("test writer mutex poisoned").extend_from_slice(bytes)
}

/// `Arc::clone`: another pointer to the same buffer.
#[verifier::external_body]
fn share_buffer(b: &Arc<Mutex<Vec<u8>>>) -> (r: Arc<Mutex<Vec<u8>>>)
    ensures
        r == *b,
{
    Arc::clone(b)
}

/// An in-memory log sink: every handle made from it, and every clone of
/// it, writes into the same buffer.
#[derive(Clone)]
pub struct TestWriter {
    buf: Arc<Mutex<Vec<u8>>>,
}

/// A handle that appends to a `TestWriter`'s buffer.
pub struct TestWriterHandle {
    buf: Arc<Mutex<Vec<u8>>>,
}

impl TestWriter {
    /// A writer with an empty buffer.
    pub fn new() -> (w: TestWriter) {
        TestWriter { buf: Arc::new(mutex_new(Vec::new())) }
    }

    /// The text written so far, decoded as UTF-8 with invalid sequences
    /// replaced.
    pub fn snapshot(&self) -> (s: String)
        ensures
            exists|b: Seq<u8>| s@ == utf8_lossy(b),
    {
        let bytes = locked_bytes(&self.buf);
        decode_lossy(bytes.as_slice())
    }

    /// A handle writing into this writer's buffer.
    pub fn handle(&self) -> (h: TestWriterHandle)
        ensures
            h.writes_into(*self),
    {
        TestWriterHandle { buf: share_buffer(&self.buf) }
    }
}

impl Default for TestWriter {
    /// A writer with an empty buffer, as `new` makes.
    fn default() -> (w: TestWriter) {
        TestWriter::new()
    }
}

impl TestWriterHandle {
    /// Whether this handle appends to the buffer of `w`: both hold the same
    /// shared buffer.
    pub closed spec fn writes_into(self, w: TestWriter) -> bool {
        self.buf == w.buf
    }

    /// Appends `bytes` to the shared buffer; all of them are taken.
    pub fn write_bytes(&self, bytes: &[u8]) -> (n: usize)
        ensures
            n == bytes@.len(),
    {
        locked_append(&self.buf, bytes);
        bytes.len()
    }
}

} // verus!
