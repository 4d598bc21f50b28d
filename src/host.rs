//! Host-side collaborators as the session layer sees them: whether they
//! run, and the order in which a directory listing is sent.

use vstd::prelude::*;
use vstd::utf8::encode_utf8;

use crate::protocol::FileInfo;

verus! {

broadcast use vstd::seq_lib::group_to_multiset_ensures;

/// Text of the error for input while the input handler is stopped.
pub const INPUT_INACTIVE: &'static str = "Input handler not active";

/// Text of the error for a listing while the file server is stopped.
pub const SERVER_STOPPED: &'static str = "File server not running";

/// Errors of the host service.
#[derive(Debug, Clone)]
pub enum HostError {
    AlreadyRunning,
    NotRunning,
    ScreenCaptureError(String),
    InputError(String),
    FileSystemError(String),
    NetworkError(String),
}

/// Strict lexicographic order on byte strings, a proper prefix first.
pub open spec fn bytes_lt(a: Seq<u8>, b: Seq<u8>) -> bool
    decreases a.len(),
{
    if a.len() == 0 {
        b.len() > 0
    } else if b.len() == 0 {
        false
    } else if a[0] != b[0] {
        a[0] < b[0]
    } else {
        bytes_lt(a.drop_first(), b.drop_first())
    }
}

/// `a` is listed strictly before `b`: directories first, then by name.
pub open spec fn listed_before(a: FileInfo, b: FileInfo) -> bool {
    (a.is_directory && !b.is_directory) || (a.is_directory == b.is_directory && bytes_lt(
        encode_utf8(a.name@),
        encode_utf8(b.name@),
    ))
}

/// No entry is listed strictly before one that precedes it.
pub open spec fn in_listing_order(s: Seq<FileInfo>) -> bool {
    forall|i: int, j: int| 0 <= i < j < s.len() ==> !listed_before(#[trigger] s[j], #[trigger] s[i])
}

proof fn lemma_bytes_lt_transitive(a: Seq<u8>, b: Seq<u8>, c: Seq<u8>)
    requires
        bytes_lt(a, b),
        bytes_lt(b, c),
    ensures
        bytes_lt(a, c),
    decreases a.len(),
{
    if a.len() > 0 && b.len() > 0 && c.len() > 0 && a[0] == b[0] && b[0] == c[0] {
        lemma_bytes_lt_transitive(a.drop_first(), b.drop_first(), c.drop_first());
    }
}

proof fn lemma_listed_before_transitive(a: FileInfo, b: FileInfo, c: FileInfo)
    requires
        listed_before(a, b),
        listed_before(b, c),
    ensures
        listed_before(a, c),
{
    if a.is_directory == b.is_directory && b.is_directory == c.is_directory {
        lemma_bytes_lt_transitive(encode_utf8(a.name@), encode_utf8(b.name@), encode_utf8(c.name@));
    }
}

/// Whether `a` goes strictly before `b` in a listing.
fn goes_before(a: &FileInfo, b: &FileInfo) -> (r: bool)
    ensures
        r == listed_before(*a, *b),
{
    if a.is_directory != b.is_directory {
        return a.is_directory;
    }
    let x = a.name.as_str().as_bytes();
    let y = b.name.as_str().as_bytes();
    let mut i: usize = 0;
    assert(x@.skip(0) =~= x@);
    assert(y@.skip(0) =~= y@);
    while i < x.len() && i < y.len()
        invariant
            0 <= i <= x@.len(),
            i <= y@.len(),
            a.is_directory == b.is_directory,
            x@ == encode_utf8(a.name@),
            y@ == encode_utf8(b.name@),
            x@.take(i as int) == y@.take(i as int),
            bytes_lt(x@, y@) == bytes_lt(x@.skip(i as int), y@.skip(i as int)),
        decreases x@.len() - i,
    {
        if x[i] != y[i] {
            proof {
                assert(x@.skip(i as int).len() > 0);
                assert(y@.skip(i as int).len() > 0);
                assert(x@.skip(i as int)[0] == x@[i as int]);
                assert(y@.skip(i as int)[0] == y@[i as int]);
            }
            return x[i] < y[i];
        }
        proof {
            assert(x@.skip(i as int).drop_first() =~= x@.skip(i + 1));
            assert(y@.skip(i as int).drop_first() =~= y@.skip(i + 1));
            assert(x@.take(i + 1) =~= x@.take(i as int).push(x@[i as int]));
            assert(y@.take(i + 1) =~= y@.take(i as int).push(y@[i as int]));
        }
        i = i + 1;
    }
    proof {
        if i >= x@.len() {
            assert(x@.skip(i as int).len() == 0);
        } else {
            assert(y@.skip(i as int).len() == 0);
        }
    }
    i < y.len()
}

proof fn lemma_bytes_lt_irreflexive(a: Seq<u8>)
    ensures
        !bytes_lt(a, a),
    decreases a.len(),
{
    if a.len() > 0 {
        lemma_bytes_lt_irreflexive(a.drop_first());
    }
}

fn copy_file_info(f: &FileInfo) -> (r: FileInfo)
    ensures
        r == *f,
{
    FileInfo {
        name: f.name.clone(),
        path: f.path.clone(),
        size: f.size,
        is_directory: f.is_directory,
        modified: f.modified,
    }
}

/// The entries of a listing in the order they are sent: directories first,
/// then by name (byte order); entries that tie keep their order.
pub fn listing_order(entries: &Vec<FileInfo>) -> (r: Vec<FileInfo>)
    ensures
        r@.to_multiset() == entries@.to_multiset(),
        in_listing_order(r@),
{
    let mut out: Vec<FileInfo> = Vec::new();
    let mut i: usize = 0;
    while i < entries.len()
        invariant
            0 <= i <= entries@.len(),
            out@.to_multiset() == entries@.take(i as int).to_multiset(),
            in_listing_order(out@),
        decreases entries@.len() - i,
    {
        let x = copy_file_info(&entries[i]);
        let mut p: usize = 0;
        let mut found = false;
        while p < out.len() && !found
            invariant
                0 <= p <= out@.len(),
                found ==> p < out@.len() && listed_before(x, out@[p as int]),
                forall|k: int| 0 <= k < p ==> !listed_before(x, #[trigger] out@[k]),
            decreases (out@.len() - p) + (if found {
                0int
            } else {
                1int
            }),
        {
            if goes_before(&x, &out[p]) {
                found = true;
            } else {
                p = p + 1;
            }
        }
        let ghost before = out@;
        out.insert(p, x);
        proof {
            assert(out@ == before.insert(p as int, x));
            assert(out@.remove(p as int) =~= before);
            assert(out@[p as int] == x);
            assert(out@.to_multiset().remove(x) =~= before.to_multiset());
            assert(out@.to_multiset().contains(x));
            assert(out@.to_multiset() =~= before.to_multiset().insert(x));
            assert(entries@.take(i + 1) =~= entries@.take(i as int).push(entries@[i as int]));
            assert forall|a: int, b: int| 0 <= a < b < out@.len() implies !listed_before(
                #[trigger] out@[b],
                #[trigger] out@[a],
            ) by {
                if b == p {
                    assert(out@[a] == before[a]);
                    assert(!listed_before(x, before[a]));
                } else if a == p {
                    assert(out@[b] == before[b - 1]);
                    if listed_before(before[b - 1], x) {
                        assert(listed_before(x, before[p as int]));
                        lemma_listed_before_transitive(before[b - 1], x, before[p as int]);
                        if b - 1 == p {
                            lemma_bytes_lt_irreflexive(encode_utf8(before[p as int].name@));
                        } else {
                            assert(!listed_before(before[b - 1], before[p as int]));
                        }
                    }
                } else {
                    let a0 = if a < p {
                        a
                    } else {
                        a - 1
                    };
                    let b0 = if b < p {
                        b
                    } else {
                        b - 1
                    };
                    assert(out@[a] == before[a0]);
                    assert(out@[b] == before[b0]);
                    assert(!listed_before(before[b0], before[a0]));
                }
            }
        }
        i = i + 1;
    }
    proof {
        assert(entries@.take(entries@.len() as int) =~= entries@);
    }
    out
}

/// Serves directory listings to the remote side.
pub struct FileServer {
    is_running: bool,
}

impl FileServer {
    pub closed spec fn running(&self) -> bool {
        self.is_running
    }

    pub fn new() -> (r: Self)
        ensures
            !r.running(),
    {
        FileServer { is_running: false }
    }

    pub fn start(&mut self) -> (r: Result<(), HostError>)
        ensures
            r is Ok,
            final(self).running(),
    {
        self.is_running = true;
        Ok(())
    }

    pub fn stop(&mut self) -> (r: Result<(), HostError>)
        ensures
            r is Ok,
            !final(self).running(),
    {
        self.is_running = false;
        Ok(())
    }

    pub fn is_running(&self) -> (r: bool)
        ensures
            r == self.running(),
    {
        self.is_running
    }

    /// The listing to send for the directory entries read from disk: refused
    /// while the server is stopped, otherwise the entries in listing order.
    pub fn list_files(&self, entries: Vec<FileInfo>) -> (r: Result<Vec<FileInfo>, HostError>)
        ensures
            !self.running() ==> (r matches Err(HostError::FileSystemError(m)) && m@ == SERVER_STOPPED@),
            self.running() ==> (r matches Ok(v) && v@.to_multiset() == entries@.to_multiset()
                && in_listing_order(v@)),
    {
        if !self.is_running {
            return Err(HostError::FileSystemError(SERVER_STOPPED.to_string()));
        }
        Ok(listing_order(&entries))
    }
}

/// Applies remote input on the host.
pub struct InputHandler {
    is_active: bool,
}

impl InputHandler {
    pub closed spec fn active(&self) -> bool {
        self.is_active
    }

    pub fn new() -> (r: Self)
        ensures
            !r.active(),
    {
        InputHandler { is_active: false }
    }

    pub fn start(&mut self) -> (r: Result<(), HostError>)
        ensures
            r is Ok,
            final(self).active(),
    {
        self.is_active = true;
        Ok(())
    }

    pub fn stop(&mut self) -> (r: Result<(), HostError>)
        ensures
            r is Ok,
            !final(self).active(),
    {
        self.is_active = false;
        Ok(())
    }

    pub fn is_active(&self) -> (r: bool)
        ensures
            r == self.active(),
    {
        self.is_active
    }

    /// Input events are applied only while the handler is active.
    pub fn accept_input(&self) -> (r: Result<(), HostError>)
        ensures
            r is Ok <==> self.active(),
            r is Err ==> (r matches Err(HostError::InputError(m)) && m@ == INPUT_INACTIVE@),
    {
        if !self.is_active {
            return Err(HostError::InputError(INPUT_INACTIVE.to_string()));
        }
        Ok(())
    }
}

/// The host service: the collaborators that act on a partner's requests.
pub struct FreeViewerHost {
    input_handler: InputHandler,
    file_server: FileServer,
    is_running: bool,
    partner_id: String,
}

impl FreeViewerHost {
    pub closed spec fn running(&self) -> bool {
        self.is_running
    }

    pub closed spec fn spec_partner_id(&self) -> Seq<char> {
        self.partner_id@
    }

    /// The collaborators run exactly while the service runs.
    pub closed spec fn wf(&self) -> bool {
        self.input_handler.active() == self.is_running && self.file_server.running() == self.is_running
    }

    pub fn new(partner_id: String) -> (r: Self)
        ensures
            r.wf(),
            !r.running(),
            r.spec_partner_id() == partner_id@,
    {
        FreeViewerHost {
            input_handler: InputHandler::new(),
            file_server: FileServer::new(),
            is_running: false,
            partner_id,
        }
    }

    /// Starts the service and its collaborators; refused when it runs.
    pub fn start(&mut self) -> (r: Result<(), HostError>)
        requires
            old(self).wf(),
        ensures
            final(self).wf(),
            final(self).running(),
            r is Ok <==> !old(self).running(),
            r is Err ==> r matches Err(HostError::AlreadyRunning),
            final(self).spec_partner_id() == old(self).spec_partner_id(),
    {
        if self.is_running {
            return Err(HostError::AlreadyRunning);
        }
        self.is_running = true;
        let _ = self.input_handler.start();
        let _ = self.file_server.start();
        Ok(())
    }

    /// Stops the service and its collaborators; refused when it is stopped.
    pub fn stop(&mut self) -> (r: Result<(), HostError>)
        requires
            old(self).wf(),
        ensures
            final(self).wf(),
            !final(self).running(),
            r is Ok <==> old(self).running(),
            r is Err ==> r matches Err(HostError::NotRunning),
            final(self).spec_partner_id() == old(self).spec_partner_id(),
    {
        if !self.is_running {
            return Err(HostError::NotRunning);
        }
        self.is_running = false;
        let _ = self.input_handler.stop();
        let _ = self.file_server.stop();
        Ok(())
    }

    pub fn is_running(&self) -> (r: bool)
        ensures
            r == self.running(),
    {
        self.is_running
    }

    pub fn partner_id(&self) -> (r: &str)
        ensures
            r@ == self.spec_partner_id(),
    {
        self.partner_id.as_str()
    }

    pub fn input_handler(&self) -> (r: &InputHandler)
        requires
            self.wf(),
        ensures
            r.active() == self.running(),
    {
        &self.input_handler
    }

    pub fn file_server(&self) -> (r: &FileServer)
        requires
            self.wf(),
        ensures
            r.running() == self.running(),
    {
        &self.file_server
    }
}

} // verus!
