//! The controller exercised against a simulated WebDAV server.

use corroded_dav::creds::CredentialTable;
use corroded_dav::davctrl::{
    DavController, DavTransport, ListEvent, TransferEvent,
};
use corroded_dav::filter::FilterCriteria;
use corroded_dav::urls::{RemoteUrl, UrlHost};
use corroded_dav::xml::XmlElement;

const TESTSERVER_URL_STR: &str = "https://www.webdavserver.com/Usere30e1ee/";

fn get_testserver_url() -> RemoteUrl {
    RemoteUrl {
        text: TESTSERVER_URL_STR.to_string(),
        host: UrlHost::Domain("www.webdavserver.com".to_string()),
        path: "/Usere30e1ee/".to_string(),
    }
}

fn server_child_url(name: &str) -> RemoteUrl {
    RemoteUrl {
        text: format!("{TESTSERVER_URL_STR}{name}"),
        host: UrlHost::Domain("www.webdavserver.com".to_string()),
        path: format!("/Usere30e1ee/{name}"),
    }
}

fn dav(name: &str, text: &str, children: Vec<XmlElement>) -> XmlElement {
    XmlElement {
        name: name.to_string(),
        namespace: "DAV:".to_string(),
        text: text.to_string(),
        children,
    }
}

fn entry(href: &str, props: Vec<XmlElement>) -> XmlElement {
    dav(
        "response",
        "",
        vec![dav("href", href, vec![]), dav("propstat", "", vec![dav("prop", "", props)])],
    )
}

/// A simulated server holding a fixed set of resources, plus the
/// optional uploaded greeting file.
struct TestServer {
    has_hello: bool,
    downloads_seen: Vec<(String, String, String)>,
}

impl TestServer {
    fn listing(&self) -> XmlElement {
        let mut entries = vec![
            entry(
                "p.txt",
                vec![
                    dav("getcontenttype", "text/plain; charset=utf-8", vec![]),
                    dav("getcontentlength", "5120", vec![]),
                    dav("getlastmodified", "Sat, 02 Mar 2019 10:00:00 GMT", vec![]),
                ],
            ),
            entry(
                "slides.key",
                vec![
                    dav("getcontenttype", "application/octet-stream", vec![]),
                    dav("getcontentlength", "90112", vec![]),
                    dav("getlastmodified", "Mon, 04 Mar 2019 08:30:00 GMT", vec![]),
                ],
            ),
        ];
        for i in 0..6 {
            entries.push(entry(
                &format!("doc{i}.dat"),
                vec![
                    dav("getcontentlength", "1024", vec![]),
                    dav("getlastmodified", "Tue, 02 Apr 2019 09:00:00 GMT", vec![]),
                ],
            ));
        }
        if self.has_hello {
            entries.push(entry(
                "hello%20world.txt",
                vec![
                    dav("getcontenttype", "text/plain", vec![]),
                    dav("getcontentlength", "13", vec![]),
                    dav("getlastmodified", "Fri, 01 May 2020 12:00:00 GMT", vec![]),
                ],
            ));
        }
        dav("multistatus", "", entries)
    }
}

impl DavTransport for TestServer {
    fn is_file(&self, _path: &str) -> bool {
        true
    }

    fn is_dir(&self, _path: &str) -> bool {
        true
    }

    fn upload(
        &mut self,
        _source_path: &str,
        target_url: &str,
        _login: &str,
        _password: &str,
    ) -> TransferEvent {
        if target_url.ends_with("hello%20world.txt") {
            self.has_hello = true;
        }
        TransferEvent::Responded(201, None)
    }

    fn download(
        &mut self,
        source_url: &str,
        target_dir: &str,
        filename: &str,
        _login: &str,
        _password: &str,
    ) -> TransferEvent {
        self.downloads_seen.push((
            source_url.to_string(),
            target_dir.to_string(),
            filename.to_string(),
        ));
        if source_url.starts_with(TESTSERVER_URL_STR) {
            TransferEvent::Responded(200, None)
        } else {
            TransferEvent::Responded(404, Some("no such resource".to_string()))
        }
    }

    fn list(&mut self, _url: &str, _depth: &str, _login: &str, _password: &str) -> ListEvent {
        ListEvent::Responded(207, None, Ok(self.listing()))
    }

    fn delete(&mut self, url: &str, _login: &str, _password: &str) -> TransferEvent {
        if url.ends_with("hello%20world.txt") && self.has_hello {
            self.has_hello = false;
            TransferEvent::Responded(204, None)
        } else {
            TransferEvent::Responded(404, Some("no such resource".to_string()))
        }
    }
}

fn get_davcontroller() -> DavController<TestServer> {
    let netrc = CredentialTable { hosts: vec![], default: None };
    DavController::new(netrc, TestServer { has_hello: false, downloads_seen: vec![] })
}

#[test]
fn test_ls() {
    let mut ctrl = get_davcontroller();
    let listing_result = ctrl.ls(&get_testserver_url(), &FilterCriteria::match_all());
    assert!(
        listing_result.is_ok(),
        "Error is {}",
        listing_result.err().unwrap().describe()
    );
    let listing = listing_result.unwrap();
    assert_ne!(listing.len(), 0);
    let first_entry = &listing[0];
    assert!(first_entry.date.is_some());
    assert_ne!(first_entry.name.len(), 0);
}

#[test]
fn test_get() {
    let notes_url = server_child_url("Notes.txt");
    let presentation_url = server_child_url("Presentation.key");
    let sources = vec![notes_url, presentation_url];
    let target_dir = "/tmp-downloads".to_string();
    let mut ctrl = get_davcontroller();
    let get_result = ctrl.get(&sources, &target_dir);
    for result in get_result {
        assert!(result.is_ok(), "Error is {}", result.err().unwrap().describe());
    }
    let mut found_notes = false;
    let mut found_presentation = false;
    for (_, dir, filename) in &ctrl.transport.downloads_seen {
        assert_eq!(dir, &target_dir);
        match filename.as_str() {
            "Notes.txt" => {
                found_notes = true;
            }
            "Presentation.key" => {
                found_presentation = true;
            }
            _ => {
                panic!("Get downloaded spurios file(s) {}", filename);
            }
        }
    }
    assert!(found_notes, "Notes.txt was not downloaded");
    assert!(found_presentation, "Presentation.key was not downloaded");
}

#[test]
fn test_file_lifecycle() {
    let hello_url = server_child_url("hello%20world.txt");
    let mut ctrl = get_davcontroller();

    subtest_put(&mut ctrl, &hello_url);
    subtest_ls_attr(&mut ctrl);
    subtest_delete(&mut ctrl, &hello_url);
    subtest_ls_attr_after_delete(&mut ctrl);
}

fn subtest_put(ctrl: &mut DavController<TestServer>, hello_url: &RemoteUrl) {
    let sources = vec!["/tmp-sources/hello.txt".to_string()];
    let put_result = ctrl.put(&sources, hello_url);
    for result in put_result {
        assert!(result.is_ok(), "Error is {}", result.err().unwrap().describe());
    }
}

fn subtest_ls_attr(ctrl: &mut DavController<TestServer>) {
    let filter_type = FilterCriteria::new("text/plain", "*", "*", "*", "*").unwrap();
    let filter_size = FilterCriteria::new("*", "13", "13", "*", "*").unwrap();
    let filter_modification = FilterCriteria::new(
        "*",
        "*",
        "*",
        "2019-01-01T00:00:00+00:00",
        "2019-12-31T00:00:00+00:00",
    )
    .unwrap();
    let mut listing_result = ctrl.ls(&get_testserver_url(), &filter_type).unwrap();
    assert_eq!(listing_result.len(), 2);
    listing_result = ctrl.ls(&get_testserver_url(), &filter_size).unwrap();
    assert_eq!(listing_result.len(), 1);
    listing_result = ctrl.ls(&get_testserver_url(), &filter_modification).unwrap();
    assert_eq!(listing_result.len(), 8);
}

fn subtest_delete(ctrl: &mut DavController<TestServer>, hello_url: &RemoteUrl) {
    let delete_result = ctrl.delete(hello_url);
    assert!(delete_result.is_ok(), "error is {}", delete_result.err().unwrap().describe());
}

fn subtest_ls_attr_after_delete(ctrl: &mut DavController<TestServer>) {
    let filter_type = FilterCriteria::new("text/plain", "*", "*", "*", "*").unwrap();
    let filter_size = FilterCriteria::new("*", "13", "13", "*", "*").unwrap();
    let mut listing_result = ctrl.ls(&get_testserver_url(), &filter_type).unwrap();
    assert_eq!(listing_result.len(), 1);
    listing_result = ctrl.ls(&get_testserver_url(), &filter_size).unwrap();
    assert_eq!(listing_result.len(), 0);
}
