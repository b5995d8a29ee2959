//! The registry of local sites kept by the command-line tool, the checks
//! made when a site is added, and the texts the tool and the server show.
//! Prompting, files and printing are left to the programs.
use vstd::prelude::*;
use crate::text::{
    chars_of, owned, push_str, push_all, string_of, split, split_on, trim, trim_chars, views,
    decimal, decimal_chars, find_text, find_in, replace_all, replace_in, text_lines, lines_of,
};

verus! {

/// A configured site: its address, name and ports.
#[derive(Debug)]
pub struct SiteEntry {
    pub server_address: String,
    pub server_name: String,
    pub ports: Vec<String>,
}

/// The configured sites, in the order they were added.
#[derive(Debug)]
pub struct SiteRegistry {
    pub servers: Vec<SiteEntry>,
}

/// What is wrong with a new site name, if anything.
#[derive(Debug, Clone, Copy, PartialEq, Eq, Structural)]
pub enum NameCheck {
    Empty,
    Taken,
    Accepted,
}

/// The names of the sites.
pub open spec fn site_names(v: Seq<SiteEntry>) -> Seq<Seq<char>> {
    v.map_values(|e: SiteEntry| e.server_name@)
}

/// The addresses of the sites.
pub open spec fn site_addresses(v: Seq<SiteEntry>) -> Seq<Seq<char>> {
    v.map_values(|e: SiteEntry| e.server_address@)
}

/// The ports typed as one text: the comma-separated pieces, trimmed.
pub open spec fn spec_ports(input: Seq<char>) -> Seq<Seq<char>> {
    split(input, ',').map_values(|p: Seq<char>| trim(p))
}

impl SiteRegistry {
    pub fn new() -> (r: Self)
        ensures
            r.servers@.len() == 0,
    {
        SiteRegistry { servers: Vec::new() }
    }

    /// Whether a name can be given to a new site: not empty, and not the
    /// name of a site already.
    pub fn check_server_name(&self, name: &str) -> (r: NameCheck)
        ensures
            r == if name@.len() == 0 {
                NameCheck::Empty
            } else if site_names(self.servers@).contains(name@) {
                NameCheck::Taken
            } else {
                NameCheck::Accepted
            },
    {
        if name.is_empty() {
            return NameCheck::Empty;
        }
        let mut i: usize = 0;
        while i < self.servers.len()
            invariant
                i <= self.servers@.len(),
                name@.len() > 0,
                forall|j: int| 0 <= j < i ==> (#[trigger] self.servers@[j]).server_name@ != name@,
            decreases self.servers@.len() - i,
        {
            if crate::text::str_eq(self.servers[i].server_name.as_str(), name) {
                assert(site_names(self.servers@)[i as int] == name@);
                return NameCheck::Taken;
            }
            i = i + 1;
        }
        proof {
            if site_names(self.servers@).contains(name@) {
                let k = choose|k: int| 0 <= k < site_names(self.servers@).len() && site_names(self.servers@)[k] == name@;
                assert(self.servers@[k].server_name@ == name@);
            }
        }
        NameCheck::Accepted
    }

    /// Whether an address is the address of a site already.
    pub fn address_taken(&self, address: &str) -> (r: bool)
        ensures
            r == site_addresses(self.servers@).contains(address@),
    {
        let mut i: usize = 0;
        while i < self.servers.len()
            invariant
                i <= self.servers@.len(),
                forall|j: int| 0 <= j < i ==> (#[trigger] self.servers@[j]).server_address@ != address@,
            decreases self.servers@.len() - i,
        {
            if crate::text::str_eq(self.servers[i].server_address.as_str(), address) {
                assert(site_addresses(self.servers@)[i as int] == address@);
                return true;
            }
            i = i + 1;
        }
        proof {
            if site_addresses(self.servers@).contains(address@) {
                let k = choose|k: int| 0 <= k < site_addresses(self.servers@).len() && site_addresses(self.servers@)[k] == address@;
                assert(self.servers@[k].server_address@ == address@);
            }
        }
        false
    }

    /// The address offered for a new site: `127.0.0.` followed by the
    /// number of sites plus two.
    pub fn default_address(&self) -> (r: String)
        requires
            self.servers@.len() + 2 <= u64::MAX,
        ensures
            r@ == "127.0.0."@ + decimal((self.servers@.len() + 2) as nat),
    {
        let mut v = chars_of("127.0.0.");
        let d = decimal_chars(self.servers.len() as u64 + 2);
        push_all(&mut v, &d);
        string_of(&v)
    }

    /// Adds a site after the others.
    pub fn add(&mut self, entry: SiteEntry)
        ensures
            final(self).servers@ == old(self).servers@.push(entry),
    {
        self.servers.push(entry);
    }
}

/// The ports typed as one text.
pub fn parse_ports(input: &str) -> (r: Vec<String>)
    ensures
        r@.len() == spec_ports(input@).len(),
        forall|i: int| 0 <= i < r@.len() ==> (#[trigger] r@[i])@ == spec_ports(input@)[i],
{
    let c = chars_of(input);
    let pieces = split_on(&c, ',');
    let mut r: Vec<String> = Vec::new();
    let mut i: usize = 0;
    while i < pieces.len()
        invariant
            i <= pieces@.len(),
            views(pieces@) == split(input@, ','),
            r@.len() == i,
            forall|j: int| 0 <= j < i ==> (#[trigger] r@[j])@ == spec_ports(input@)[j],
        decreases pieces@.len() - i,
    {
        let t = trim_chars(&pieces[i]);
        assert(views(pieces@)[i as int] == pieces@[i as int]@);
        r.push(string_of(&t));
        i = i + 1;
    }
    r
}

/// The ports of a site, separated by `, `.
pub open spec fn joined_ports(ps: Seq<Seq<char>>) -> Seq<char>
    decreases ps.len(),
{
    if ps.len() == 0 {
        Seq::empty()
    } else if ps.len() == 1 {
        ps[0]
    } else {
        joined_ports(ps.drop_last()) + ", "@ + ps.last()
    }
}

/// The texts of a list of strings.
pub open spec fn strings(v: Seq<String>) -> Seq<Seq<char>> {
    v.map_values(|s: String| s@)
}

/// The ports separated by `, `.
pub fn join_ports(ports: &Vec<String>) -> (r: String)
    ensures
        r@ == joined_ports(strings(ports@)),
{
    let mut v: Vec<char> = Vec::new();
    let mut i: usize = 0;
    while i < ports.len()
        invariant
            i <= ports@.len(),
            v@ == joined_ports(strings(ports@).take(i as int)),
        decreases ports@.len() - i,
    {
        let ghost before = v@;
        if i > 0 {
            push_str(&mut v, ", ");
        }
        push_str(&mut v, ports[i].as_str());
        proof {
            let t = strings(ports@).take(i + 1);
            assert(t.drop_last() =~= strings(ports@).take(i as int));
            assert(t.last() == ports@[i as int]@);
            if i == 0 {
                assert(v@ =~= t[0]);
            }
        }
        i = i + 1;
    }
    assert(strings(ports@).take(i as int) =~= strings(ports@));
    string_of(&v)
}

/// The line of `/etc/hosts` that names a site.
pub fn hosts_entry_line(ip_address: &str, server_name: &str) -> (r: String)
    ensures
        r@ == ip_address@ + "      "@ + server_name@,
{
    let mut v = chars_of(ip_address);
    push_str(&mut v, "      ");
    push_str(&mut v, server_name);
    string_of(&v)
}

/// Whether a line of the hosts file contains the site name.
pub fn hosts_has_entry(content: &str, server_name: &str) -> (r: bool)
    ensures
        r == exists|i: int|
            0 <= i < text_lines(content@).len() && (find_text(#[trigger] text_lines(content@)[i], server_name@) is Some),
{
    let c = chars_of(content);
    let ls = lines_of(&c);
    let name = chars_of(server_name);
    any_line_contains(&ls, &name)
}

/// Whether one of the lines contains `name`.
#[verifier::spinoff_prover]
fn any_line_contains(ls: &Vec<Vec<char>>, name: &Vec<char>) -> (r: bool)
    ensures
        r == exists|i: int| 0 <= i < views(ls@).len() && (find_text(#[trigger] views(ls@)[i], name@) is Some),
{
    let mut i: usize = 0;
    while i < ls.len()
        invariant
            i <= ls@.len(),
            forall|j: int| 0 <= j < i ==> find_text(#[trigger] views(ls@)[j], name@) is None,
        decreases ls@.len() - i,
    {
        assert(views(ls@)[i as int] == ls@[i as int]@);
        if find_in(&ls[i], name).is_some() {
            return true;
        }
        i = i + 1;
    }
    false
}

/// The banner shown when the server starts: the template with its
/// placeholders replaced, in order, by the start time, the environment,
/// the mode, the number of hosts and the upload directory.
pub fn banner_text(template: &str, current_time: &str, environment: &str, mode: &str, host_count: u64, upload_dir: &str) -> (r: String)
    ensures
        r@ == replace_all(
            replace_all(
                replace_all(
                    replace_all(
                        replace_all(template@, "{current_time}"@, current_time@),
                        "{environment}"@,
                        environment@,
                    ),
                    "{mode}"@,
                    mode@,
                ),
                "{host_count}"@,
                decimal(host_count as nat),
            ),
            "{upload_dir}"@,
            upload_dir@,
        ),
{
    proof {
        reveal_strlit("{current_time}");
        reveal_strlit("{environment}");
        reveal_strlit("{mode}");
        reveal_strlit("{host_count}");
        reveal_strlit("{upload_dir}");
    }
    let t = chars_of(template);
    let a = replace_in(&t, &chars_of("{current_time}"), &chars_of(current_time));
    let b = replace_in(&a, &chars_of("{environment}"), &chars_of(environment));
    let c = replace_in(&b, &chars_of("{mode}"), &chars_of(mode));
    let d = replace_in(&c, &chars_of("{host_count}"), &decimal_chars(host_count));
    let e = replace_in(&d, &chars_of("{upload_dir}"), &chars_of(upload_dir));
    string_of(&e)
}

} // verus!
