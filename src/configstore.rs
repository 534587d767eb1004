//! Host records and the catalog that holds them.
use vstd::prelude::*;

verus! {

/// One host entry with its connection attributes already resolved.
#[derive(Clone, Debug)]
pub struct SshItem {
    pub host: String,
    pub user: String,
    pub target: String,
    pub port: String,
    pub jump: String,
}

/// The ordered, read-only catalog of host records.
pub struct ConfigStore {
    pub items: Vec<SshItem>,
}

/// The port used when an entry names none.
pub open spec fn default_port() -> Seq<char> {
    seq!['2', '2']
}

/// An optional attribute, or the fallback when it is absent.
pub open spec fn or_default(v: Option<String>, fallback: Seq<char>) -> Seq<char> {
    match v {
        Some(s) => s@,
        None => fallback,
    }
}

fn take_or(v: Option<String>, fallback: String) -> (r: String)
    ensures
        r@ == or_default(v, fallback@),
{
    match v {
        Some(s) => s,
        None => fallback,
    }
}

impl SshItem {
    /// Builds a record from the options a configuration entry states,
    /// filling the absent ones: the user falls back to `default_user`, the
    /// target to the host alias itself, the port to 22 and the jump chain to
    /// the empty string.
    pub fn resolve(
        host: String,
        user: Option<String>,
        hostname: Option<String>,
        port: Option<String>,
        proxy_jump: Option<String>,
        default_user: &str,
    ) -> (r: SshItem)
        ensures
            r.host@ == host@,
            r.user@ == or_default(user, default_user@),
            r.target@ == or_default(hostname, host@),
            r.port@ == or_default(port, default_port()),
            r.jump@ == or_default(proxy_jump, Seq::<char>::empty()),
    {
        let target = take_or(hostname, host.clone());
        let user = take_or(user, default_user.to_owned());
        proof {
            reveal_strlit("22");
        }
        let port = take_or(port, "22".to_owned());
        let jump = take_or(proxy_jump, String::new());
        SshItem { host, user, target, port, jump }
    }
}

/// `v` refers, position by position, to the records of `s`.
pub open spec fn refers_to(v: Seq<&SshItem>, s: Seq<SshItem>) -> bool {
    v.len() == s.len() && forall|k: int| 0 <= k < v.len() ==> *#[trigger] v[k] == s[k]
}

impl ConfigStore {
    /// A catalog over the given records, kept in the given order.
    pub fn new(items: Vec<SshItem>) -> (r: ConfigStore)
        ensures
            r.items@ == items@,
    {
        ConfigStore { items }
    }

    /// Every record of the catalog, in catalog order.
    pub fn get_all_hosts(&self) -> (r: Vec<&SshItem>)
        ensures
            refers_to(r@, self.items@),
    {
        let mut r: Vec<&SshItem> = Vec::new();
        let mut i: usize = 0;
        while i < self.items.len()
            invariant
                i <= self.items@.len(),
                refers_to(r@, self.items@.subrange(0, i as int)),
            decreases self.items@.len() - i,
        {
            r.push(&self.items[i]);
            i = i + 1;
        }
        assert(self.items@.subrange(0, self.items@.len() as int) =~= self.items@);
        r
    }
}

} // verus!
