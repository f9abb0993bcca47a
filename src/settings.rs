//! The layout of the data directory.

use vstd::prelude::*;
use vstd::string::*;

verus! {

pub const META_FILE: &'static str = "meta.db";

pub const MAILBOX_FILE: &'static str = "mailbox.db";

pub const ENVELOPE_DIR: &'static str = "envelope";

pub const EML_DIR: &'static str = "eml";

pub const TMP_DIR: &'static str = "tmp";

pub const LOG_DIR: &'static str = "logs";

pub const TLS_CERT: &'static str = "cert.pem";

pub const TLS_KEY: &'static str = "key.pem";

/// The path of `name` inside the directory `dir`, separated by `/`.
pub open spec fn under(dir: Seq<char>, name: Seq<char>) -> Seq<char> {
    if dir.len() == 0 {
        name
    } else if dir.last() == '/' {
        dir + name
    } else {
        dir + "/"@ + name
    }
}

/// The path of `name` inside the directory `dir`.
pub fn path_under(dir: &str, name: &str) -> (r: String)
    ensures
        r@ == under(dir@, name@),
{
    let n = dir.unicode_len();
    let mut p = String::from_str(dir);
    if n > 0 && dir.get_char(n - 1) != '/' {
        p.append("/");
    }
    p.append(name);
    p
}

/// Where the service keeps its databases, indexes, messages, logs and
/// certificates.
#[derive(Debug)]
pub struct DataDirManager {
    pub root_dir: String,
    pub meta_db: String,
    pub mailbox_db: String,
    pub temp_dir: String,
    pub tls_cert: String,
    pub tls_key: String,
    pub envelope_dir: String,
    pub eml_dir: String,
    pub log_dir: String,
}

impl DataDirManager {
    /// The layout under `root_dir`; `index_dir` and `data_dir`, where set,
    /// move the envelope index and the message store elsewhere.
    pub fn new(root_dir: &str, index_dir: Option<String>, data_dir: Option<String>) -> (r: Self)
        ensures
            r.root_dir@ == root_dir@,
            r.meta_db@ == under(root_dir@, META_FILE@),
            r.mailbox_db@ == under(root_dir@, MAILBOX_FILE@),
            r.temp_dir@ == under(root_dir@, TMP_DIR@),
            r.tls_cert@ == under(root_dir@, TLS_CERT@),
            r.tls_key@ == under(root_dir@, TLS_KEY@),
            r.log_dir@ == under(root_dir@, LOG_DIR@),
            r.envelope_dir@ == match index_dir {
                Some(d) => d@,
                None => under(root_dir@, ENVELOPE_DIR@),
            },
            r.eml_dir@ == match data_dir {
                Some(d) => d@,
                None => under(root_dir@, EML_DIR@),
            },
    {
        let envelope_dir = match index_dir {
            Some(d) => d,
            None => path_under(root_dir, ENVELOPE_DIR),
        };
        let eml_dir = match data_dir {
            Some(d) => d,
            None => path_under(root_dir, EML_DIR),
        };
        DataDirManager {
            root_dir: root_dir.to_owned(),
            meta_db: path_under(root_dir, META_FILE),
            mailbox_db: path_under(root_dir, MAILBOX_FILE),
            temp_dir: path_under(root_dir, TMP_DIR),
            tls_cert: path_under(root_dir, TLS_CERT),
            tls_key: path_under(root_dir, TLS_KEY),
            envelope_dir,
            eml_dir,
            log_dir: path_under(root_dir, LOG_DIR),
        }
    }
}

} // verus!
