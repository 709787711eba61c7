//! The operation controller: put, get, ls and delete over an injected
//! transport.
//!
//! The controller decides, per unit of work, what to send where and
//! which error to record; the transport performs the wire and disk
//! work and reports back plain events.  Batch operations never fail
//! fast: every element is attempted and its own result captured.

use vstd::prelude::*;
use crate::catalogue::{is_entry_elem, is_parse_of, CatalogueInfo};
use crate::creds::{CredentialTable, Machine};
use crate::filter::{is_match_all, matches_spec, FilterCriteria};
use crate::paths::{base_name, base_name_of};
use crate::urls::{collection_shaped, join_url, url_filename_of, url_join_of, RemoteUrl};
use crate::xml::{elem_is, XmlElement};

verus! {

/// What went wrong with one unit of work.
#[derive(Debug, PartialEq, Eq)]
pub enum DavCtrlError {
    /// The transport call failed, or the server answered outside the
    /// success range; carries the reported detail when available, else
    /// a generic text.
    Transport(String),
    /// A local precondition failed; carries the offending source path
    /// or URL.
    InvalidSource(String),
    /// The target cannot receive the work; carries the offending
    /// target.
    InvalidDestination(String),
    /// A listing response was not a valid listing container.
    MalformedResponse,
    /// Local input or output failed; carries the reported reason.
    Local(String),
}

impl DavCtrlError {
    /// A short human-readable account of the error.
    pub fn describe(&self) -> (r: String)
        ensures
            match self {
                DavCtrlError::Transport(m) => r@ == "transport error: "@ + m@,
                DavCtrlError::InvalidSource(p) => r@ == "invalid source: "@ + p@,
                DavCtrlError::InvalidDestination(t) => r@ == "invalid destination: "@ + t@,
                DavCtrlError::MalformedResponse => r@ == "malformed listing response"@,
                DavCtrlError::Local(m) => r@ == "local error: "@ + m@,
            },
    {
        match self {
            DavCtrlError::Transport(m) => {
                let mut s = String::from_str("transport error: ");
                s.append(m.as_str());
                s
            },
            DavCtrlError::InvalidSource(p) => {
                let mut s = String::from_str("invalid source: ");
                s.append(p.as_str());
                s
            },
            DavCtrlError::InvalidDestination(t) => {
                let mut s = String::from_str("invalid destination: ");
                s.append(t.as_str());
                s
            },
            DavCtrlError::MalformedResponse => String::from_str("malformed listing response"),
            DavCtrlError::Local(m) => {
                let mut s = String::from_str("local error: ");
                s.append(m.as_str());
                s
            },
        }
    }
}

/// What the transport reports back from one upload, download or
/// delete.
#[derive(Debug)]
pub enum TransferEvent {
    /// Local disk work failed; carries the reported reason.
    LocalFailure(String),
    /// The wire call itself failed; carries the reported reason.
    WireFailure(String),
    /// The server answered: its status code, with the transport's
    /// error detail for statuses it explains.
    Responded(u16, Option<String>),
}

/// What the transport reports back from one listing request.
#[derive(Debug)]
pub enum ListEvent {
    /// The wire call itself failed; carries the reported reason.
    WireFailure(String),
    /// The server answered: status, optional detail, and the response
    /// body as an element tree, or the reason it could not be read.
    Responded(u16, Option<String>, Result<XmlElement, String>),
}

/// The wire and disk collaborator behind the controller.  Nothing is
/// assumed of it: the controller's contracts hold for every answer.
pub trait DavTransport {
    /// The path names an existing regular file.
    fn is_file(&self, path: &str) -> bool;

    /// The path names an existing directory.
    fn is_dir(&self, path: &str) -> bool;

    /// Upload the local file to the target URL.
    fn upload(&mut self, source_path: &str, target_url: &str, login: &str, password: &str)
        -> TransferEvent;

    /// Download the source URL into the named file in the target
    /// directory, overwriting it.
    fn download(
        &mut self,
        source_url: &str,
        target_dir: &str,
        filename: &str,
        login: &str,
        password: &str,
    ) -> TransferEvent;

    /// Request a listing of the URL at the given depth.
    fn list(&mut self, url: &str, depth: &str, login: &str, password: &str) -> ListEvent;

    /// Delete the resource at the URL.
    fn delete(&mut self, url: &str, login: &str, password: &str) -> TransferEvent;
}

/// A success status: the 2xx range.
pub open spec fn success_status(status: u16) -> bool {
    200 <= status && status <= 299
}

/// The error recorded for a response outside the success range: the
/// reported detail where there is one, else a generic text.
pub open spec fn status_error(e: DavCtrlError, detail: Option<String>) -> bool {
    e matches DavCtrlError::Transport(msg) && (match detail {
        Some(d) => msg == d,
        None => msg@ == "Error status returned without information"@,
    })
}

/// Check a response status: success passes through, anything else
/// becomes a transport error.
pub fn ensure_success(status: u16, detail: Option<String>) -> (r: Result<u16, DavCtrlError>)
    ensures
        success_status(status) ==> r == Ok::<u16, DavCtrlError>(status),
        !success_status(status) ==> (r matches Err(e) && status_error(e, detail)),
{
    if 200 <= status && status <= 299 {
        Ok(status)
    } else {
        match detail {
            Some(d) => Err(DavCtrlError::Transport(d)),
            None => Err(
                DavCtrlError::Transport(
                    String::from_str("Error status returned without information"),
                ),
            ),
        }
    }
}

/// The per-item result one transfer event determines.
pub open spec fn transfer_outcome(ev: TransferEvent, r: Result<u16, DavCtrlError>) -> bool {
    match ev {
        TransferEvent::LocalFailure(m) => r == Err::<u16, DavCtrlError>(DavCtrlError::Local(m)),
        TransferEvent::WireFailure(m) => r == Err::<u16, DavCtrlError>(
            DavCtrlError::Transport(m),
        ),
        TransferEvent::Responded(status, detail) => {
            if success_status(status) {
                r == Ok::<u16, DavCtrlError>(status)
            } else {
                r matches Err(e) && status_error(e, detail)
            }
        },
    }
}

/// Turn one transfer event into the recorded result.
pub fn transfer_result(ev: TransferEvent) -> (r: Result<u16, DavCtrlError>)
    ensures
        transfer_outcome(ev, r),
{
    match ev {
        TransferEvent::LocalFailure(m) => Err(DavCtrlError::Local(m)),
        TransferEvent::WireFailure(m) => Err(DavCtrlError::Transport(m)),
        TransferEvent::Responded(status, detail) => ensure_success(status, detail),
    }
}

/// Where one upload goes.  A non-collection target is taken verbatim,
/// and only a single-file batch may use one; a collection target is
/// joined with the file's base name.
pub open spec fn put_target_of(
    file_path: Seq<char>,
    base: RemoteUrl,
    multi: bool,
    r: Result<RemoteUrl, DavCtrlError>,
) -> bool {
    if !collection_shaped(base.path@) {
        if multi {
            r matches Err(e) && e matches DavCtrlError::InvalidDestination(t) && t@ == base.text@
        } else {
            r matches Ok(u) && u@ == base@
        }
    } else {
        match base_name_of(file_path) {
            Some(name) => match url_join_of(base.text@, name) {
                Some(v) => r matches Ok(u) && u@ == v,
                None => r matches Err(e) && e matches DavCtrlError::InvalidSource(p) && p@
                    == file_path,
            },
            None => r matches Err(e) && e matches DavCtrlError::InvalidSource(p) && p@
                == file_path,
        }
    }
}

/// Decide one upload's target URL.  `multi` says whether the file is
/// part of a batch of more than one.
pub fn put_target(file_path: &String, target_base: &RemoteUrl, multi: bool) -> (r: Result<
    RemoteUrl,
    DavCtrlError,
>)
    ensures
        put_target_of(file_path@, *target_base, multi, r),
{
    if !target_base.is_collection_shaped() {
        if multi {
            Err(DavCtrlError::InvalidDestination(target_base.text.clone()))
        } else {
            Ok(target_base.clone())
        }
    } else {
        match base_name(file_path.as_str()) {
            Some(name) => match join_url(target_base, name.as_str()) {
                Some(u) => Ok(u),
                None => Err(DavCtrlError::InvalidSource(file_path.clone())),
            },
            None => Err(DavCtrlError::InvalidSource(file_path.clone())),
        }
    }
}

/// The outcome recorded for an upload whose target was decided: the
/// wire and the local file system answer as they will, but the item
/// can only succeed with a success status, and the only local
/// precondition that may fail names this file.
pub open spec fn upload_attempt_ok(
    file: Seq<char>,
    r: Result<u16, DavCtrlError>,
) -> bool {
    match r {
        Ok(st) => success_status(st),
        Err(e) => match e {
            DavCtrlError::Transport(_) => true,
            DavCtrlError::Local(_) => true,
            DavCtrlError::InvalidSource(p) => p@ == file,
            _ => false,
        },
    }
}

/// The outcome recorded for file `i` of a batch upload against `base`.
pub open spec fn put_result_ok(
    files: Seq<String>,
    base: RemoteUrl,
    i: int,
    r: Result<u16, DavCtrlError>,
) -> bool {
    if !collection_shaped(base.path@) && files.len() != 1 {
        r matches Err(e) && e matches DavCtrlError::InvalidDestination(t) && t@ == base.text@
    } else if collection_shaped(base.path@) && base_name_of(files[i]@) is None {
        r matches Err(e) && e matches DavCtrlError::InvalidSource(p) && p@ == files[i]@
    } else if collection_shaped(base.path@) && url_join_of(
        base.text@,
        base_name_of(files[i]@).unwrap(),
    ) is None {
        r matches Err(e) && e matches DavCtrlError::InvalidSource(p) && p@ == files[i]@
    } else {
        upload_attempt_ok(files[i]@, r)
    }
}

/// The outcome recorded for one download of `src` into `dir`: the
/// directory check answers as the file system will, but a source
/// without a filename can only be refused, and a wire attempt needs
/// one.
pub open spec fn get_result_ok(
    src: RemoteUrl,
    dir: Seq<char>,
    r: Result<u16, DavCtrlError>,
) -> bool {
    match r {
        Ok(st) => success_status(st) && url_filename_of(src.path@) is Some,
        Err(e) => match e {
            DavCtrlError::InvalidDestination(d) => d@ == dir,
            DavCtrlError::InvalidSource(p) => p@ == src.text@ && url_filename_of(src.path@)
                is None,
            DavCtrlError::Transport(_) => url_filename_of(src.path@) is Some,
            DavCtrlError::Local(_) => url_filename_of(src.path@) is Some,
            DavCtrlError::MalformedResponse => false,
        },
    }
}

/// `parses` are the parses of the listing-entry children among
/// `children`, in order.
pub open spec fn parses_of(
    base: RemoteUrl,
    children: Seq<XmlElement>,
    parses: Seq<CatalogueInfo>,
) -> bool {
    let entries = children.filter(|c: XmlElement| is_entry_elem(c));
    parses.len() == entries.len() && forall|i: int|
        0 <= i < entries.len() ==> #[trigger] is_parse_of(base, entries[i], parses[i])
}

/// `out` is what a listing of `children` against `base` returns under
/// `f`: the parses of the entry children, filtered, in order.
pub open spec fn selected_listing(
    base: RemoteUrl,
    children: Seq<XmlElement>,
    f: FilterCriteria,
    out: Seq<CatalogueInfo>,
) -> bool {
    exists|parses: Seq<CatalogueInfo>|
        #[trigger] parses_of(base, children, parses) && out == parses.filter(
            |e: CatalogueInfo| matches_spec(f, e),
        )
}

/// Interpret one already-parsed listing document: require a listing
/// container, parse each entry child, and keep those the filter
/// admits, in document order.
pub fn ls_from_document(base: &RemoteUrl, root: &XmlElement, filter: &FilterCriteria) -> (r:
    Result<Vec<CatalogueInfo>, DavCtrlError>)
    ensures
        elem_is(*root, "multistatus"@, "DAV:"@) ==> (r matches Ok(out) && selected_listing(
            *base,
            root.children@,
            *filter,
            out@,
        )),
        !elem_is(*root, "multistatus"@, "DAV:"@) ==> r == Err::<
            Vec<CatalogueInfo>,
            DavCtrlError,
        >(DavCtrlError::MalformedResponse),
{
    broadcast use Seq::lemma_filter_push;

    if !root.is_named("multistatus", "DAV:") {
        return Err(DavCtrlError::MalformedResponse);
    }
    let ghost pred = |e: CatalogueInfo| matches_spec(*filter, e);
    let ghost is_entry = |c: XmlElement| is_entry_elem(c);
    let mut out: Vec<CatalogueInfo> = Vec::new();
    let ghost mut parses = Seq::<CatalogueInfo>::empty();
    let n = root.children.len();
    let mut k: usize = 0;
    proof {
        reveal(Seq::filter);
        assert(root.children@.take(0) =~= Seq::<XmlElement>::empty());
        assert(Seq::<XmlElement>::empty().filter(is_entry) =~= Seq::<XmlElement>::empty());
        assert(parses.filter(pred) =~= Seq::<CatalogueInfo>::empty());
    }
    while k < n
        invariant
            n == root.children@.len(),
            k <= n,
            pred == (|e: CatalogueInfo| matches_spec(*filter, e)),
            is_entry == (|c: XmlElement| is_entry_elem(c)),
            parses_of(*base, root.children@.take(k as int), parses),
            out@ == parses.filter(pred),
        decreases n - k,
    {
        broadcast use Seq::lemma_filter_push;

        let ghost prefix = root.children@.take(k as int);
        proof {
            root.children@.lemma_take_succ_push(k as int);
        }
        let child = &root.children[k];
        if child.is_named("response", "DAV:") {
            let attrs = CatalogueInfo::new(base, child);
            let ghost old_parses = parses;
            proof {
                parses = parses.push(attrs);
                assert(prefix.filter(is_entry).push(*child) =~= root.children@.take(
                    k + 1 as int,
                ).filter(is_entry));
                assert forall|i: int|
                    0 <= i < root.children@.take(k + 1 as int).filter(is_entry).len()
                        implies #[trigger] is_parse_of(
                        *base,
                        root.children@.take(k + 1 as int).filter(is_entry)[i],
                        parses[i],
                    ) by {
                    if i < prefix.filter(is_entry).len() {
                        assert(is_parse_of(*base, prefix.filter(is_entry)[i], old_parses[i]));
                    }
                }
            }
            if filter.matches(&attrs) {
                out.push(attrs);
            } else {
                proof {
                    assert(out@ == parses.filter(pred));
                }
            }
        } else {
            proof {
                assert(root.children@.take(k + 1 as int).filter(is_entry) =~= prefix.filter(
                    is_entry,
                ));
            }
        }
        k = k + 1;
    }
    proof {
        assert(root.children@.take(n as int) =~= root.children@);
    }
    Ok(out)
}

proof fn lemma_filter_all_true<A>(s: Seq<A>, p: spec_fn(A) -> bool)
    requires
        forall|i: int| 0 <= i < s.len() ==> p(#[trigger] s[i]),
    ensures
        s.filter(p) == s,
    decreases s.len(),
{
    reveal(Seq::filter);
    if s.len() > 0 {
        lemma_filter_all_true(s.drop_last(), p);
        assert(s.drop_last().push(s.last()) =~= s);
    }
}

/// Law: under the no-constraint filter, a listing keeps every parsed
/// entry: it returns exactly one entry per listing-entry child, in
/// server order.
pub proof fn lemma_match_all_lists_every_entry(
    base: RemoteUrl,
    children: Seq<XmlElement>,
    f: FilterCriteria,
    out: Seq<CatalogueInfo>,
)
    requires
        is_match_all(f),
        selected_listing(base, children, f, out),
    ensures
        parses_of(base, children, out),
        out.len() == children.filter(|c: XmlElement| is_entry_elem(c)).len(),
{
    let pred = |e: CatalogueInfo| matches_spec(f, e);
    let parses = choose|parses: Seq<CatalogueInfo>|
        #[trigger] parses_of(base, children, parses) && out == parses.filter(pred);
    assert forall|i: int| 0 <= i < parses.len() implies pred(#[trigger] parses[i]) by {
        crate::filter::lemma_match_all_accepts(f, parses[i]);
    }
    lemma_filter_all_true(parses, pred);
}

/// Law: a listing never returns an entry its filter rejects:
/// non-matching entries are dropped.
pub proof fn lemma_listing_entries_match(
    base: RemoteUrl,
    children: Seq<XmlElement>,
    f: FilterCriteria,
    out: Seq<CatalogueInfo>,
)
    requires
        selected_listing(base, children, f, out),
    ensures
        forall|i: int| 0 <= i < out.len() ==> matches_spec(f, #[trigger] out[i]),
{
    let pred = |e: CatalogueInfo| matches_spec(f, e);
    let parses = choose|parses: Seq<CatalogueInfo>|
        #[trigger] parses_of(base, children, parses) && out == parses.filter(pred);
    parses.filter_lemma(pred);
}

/// The operation controller: resolves credentials per request and
/// drives the injected transport.
pub struct DavController<T: DavTransport> {
    /// The credential table consulted for every operation.
    pub netrc: CredentialTable,
    /// The injected wire and disk collaborator.
    pub transport: T,
}

impl<T: DavTransport> DavController<T> {
    /// A controller over the given credential table and transport.
    pub fn new(rc: CredentialTable, transport: T) -> (r: DavController<T>)
        ensures
            r.netrc == rc,
            r.transport == transport,
    {
        DavController { netrc: rc, transport }
    }

    /// Install explicit default credentials; every later resolution
    /// falls back to them.
    pub fn set_default_credentials(&mut self, username: String, password: String)
        ensures
            final(self).netrc.hosts == old(self).netrc.hosts,
            final(self).netrc.default == (Some(
                Machine { login: username, password: Some(password) },
            )),
            final(self).transport == old(self).transport,
    {
        self.netrc.default = Some(Machine { login: username, password: Some(password) });
    }

    /// Upload each file to a target derived from `target_base`, one
    /// result per file in input order.  Credentials are resolved once
    /// for the whole batch; one failure never aborts the rest.  A
    /// multi-file batch against a non-collection target records an
    /// invalid destination for every file and never touches the
    /// transport.
    pub fn put(&mut self, file_paths: &Vec<String>, target_base: &RemoteUrl) -> (results: Vec<
        Result<u16, DavCtrlError>,
    >)
        ensures
            results@.len() == file_paths@.len(),
            forall|i: int|
                0 <= i < results@.len() ==> put_result_ok(
                    file_paths@,
                    *target_base,
                    i,
                    #[trigger] results@[i],
                ),
            final(self).netrc == old(self).netrc,
            (!collection_shaped(target_base.path@) && file_paths@.len() > 1)
                ==> final(self).transport == old(self).transport,
    {
        let multi = file_paths.len() != 1;
        let creds = self.netrc.resolve(target_base);
        let mut results: Vec<Result<u16, DavCtrlError>> = Vec::new();
        let n = file_paths.len();
        let mut k: usize = 0;
        while k < n
            invariant
                n == file_paths@.len(),
                k <= n,
                multi == (file_paths@.len() != 1),
                results@.len() == k,
                forall|i: int|
                    0 <= i < k ==> put_result_ok(
                        file_paths@,
                        *target_base,
                        i,
                        #[trigger] results@[i],
                    ),
                self.netrc == old(self).netrc,
                (!collection_shaped(target_base.path@) && file_paths@.len() > 1)
                    ==> self.transport == old(self).transport,
            decreases n - k,
        {
            let path = &file_paths[k];
            match put_target(path, target_base, multi) {
                Err(e) => {
                    results.push(Err(e));
                },
                Ok(target) => {
                    if !self.transport.is_file(path.as_str()) {
                        results.push(Err(DavCtrlError::InvalidSource(path.clone())));
                    } else {
                        let ev = self.transport.upload(
                            path.as_str(),
                            target.text.as_str(),
                            creds.login.as_str(),
                            creds.password.as_str(),
                        );
                        results.push(transfer_result(ev));
                    }
                },
            }
            k = k + 1;
        }
        results
    }

    /// Download each source into the target directory, one result per
    /// source in input order.  Credentials are resolved per source;
    /// one failure never aborts the rest.  A missing target directory
    /// records an invalid destination for that source.
    pub fn get(&mut self, sources: &Vec<RemoteUrl>, target_dir: &String) -> (results: Vec<
        Result<u16, DavCtrlError>,
    >)
        ensures
            results@.len() == sources@.len(),
            forall|i: int|
                0 <= i < results@.len() ==> get_result_ok(
                    sources@[i],
                    target_dir@,
                    #[trigger] results@[i],
                ),
            final(self).netrc == old(self).netrc,
    {
        let mut results: Vec<Result<u16, DavCtrlError>> = Vec::new();
        let n = sources.len();
        let mut k: usize = 0;
        while k < n
            invariant
                n == sources@.len(),
                k <= n,
                results@.len() == k,
                forall|i: int|
                    0 <= i < k ==> get_result_ok(sources@[i], target_dir@, #[trigger] results@[i]),
                self.netrc == old(self).netrc,
            decreases n - k,
        {
            let source = &sources[k];
            let creds = self.netrc.resolve(source);
            if !self.transport.is_dir(target_dir.as_str()) {
                results.push(Err(DavCtrlError::InvalidDestination(target_dir.clone())));
            } else {
                match source.url_filename() {
                    None => {
                        results.push(Err(DavCtrlError::InvalidSource(source.text.clone())));
                    },
                    Some(filename) => {
                        let ev = self.transport.download(
                            source.text.as_str(),
                            target_dir.as_str(),
                            filename.as_str(),
                            creds.login.as_str(),
                            creds.password.as_str(),
                        );
                        results.push(transfer_result(ev));
                    },
                }
            }
            k = k + 1;
        }
        results
    }

    /// List the resource at depth 1 and return the entries the filter
    /// admits, in server order.  A response whose root is not a
    /// listing container is malformed.
    pub fn ls(&mut self, url_to_list: &RemoteUrl, filter: &FilterCriteria) -> (r: Result<
        Vec<CatalogueInfo>,
        DavCtrlError,
    >)
        ensures
            final(self).netrc == old(self).netrc,
            match r {
                Ok(out) => exists|root: XmlElement|
                    #[trigger] elem_is(root, "multistatus"@, "DAV:"@) && selected_listing(
                        *url_to_list,
                        root.children@,
                        *filter,
                        out@,
                    ),
                Err(e) => e is Transport || e is Local || e is MalformedResponse,
            },
    {
        let creds = self.netrc.resolve(url_to_list);
        let ev = self.transport.list(
            url_to_list.text.as_str(),
            "1",
            creds.login.as_str(),
            creds.password.as_str(),
        );
        match ev {
            ListEvent::WireFailure(m) => Err(DavCtrlError::Transport(m)),
            ListEvent::Responded(status, detail, body) => {
                match ensure_success(status, detail) {
                    Err(e) => Err(e),
                    Ok(_) => match body {
                        Err(m) => Err(DavCtrlError::Local(m)),
                        Ok(root) => {
                            let listed = ls_from_document(url_to_list, &root, filter);
                            proof {
                                if elem_is(root, "multistatus"@, "DAV:"@) {
                                    assert(listed matches Ok(out) ==> selected_listing(
                                        *url_to_list,
                                        root.children@,
                                        *filter,
                                        out@,
                                    ));
                                }
                            }
                            listed
                        },
                    },
                }
            },
        }
    }

    /// Delete the resource at the URL, as a single unit of work.
    pub fn delete(&mut self, url_to_delete: &RemoteUrl) -> (r: Result<u16, DavCtrlError>)
        ensures
            final(self).netrc == old(self).netrc,
            match r {
                Ok(st) => success_status(st),
                Err(e) => e is Transport || e is Local,
            },
    {
        let creds = self.netrc.resolve(url_to_delete);
        let ev = self.transport.delete(
            url_to_delete.text.as_str(),
            creds.login.as_str(),
            creds.password.as_str(),
        );
        transfer_result(ev)
    }
}

} // verus!
