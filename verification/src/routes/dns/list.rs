//! The domain lists and the operations on their files.

use crate::env::{Env, PiholeFile};
use crate::routes::dns::common::{is_valid_domain, is_valid_regex, regex_compiles, valid_domain};
use crate::text::{text_equal, texts};
use crate::util::{is_error, Error, ErrorKind};
use vstd::prelude::*;

verus! {

/// Represents an API input containing a domain
#[derive(Debug, PartialEq, Eq)]
pub struct DomainInput {
    pub domain: String,
}

/// The domain lists.
#[derive(Clone, Copy, Debug, PartialEq, Eq, Structural)]
pub enum List {
    White,
    Black,
    Regex,
}

/// The lines which name a domain: those that are not empty.
pub open spec fn named(lines: Seq<Seq<char>>) -> Seq<Seq<char>> {
    lines.filter(|line: Seq<char>| line.len() > 0)
}

/// Whether a text is another than `domain`.
pub open spec fn other_than(domain: Seq<char>) -> spec_fn(Seq<char>) -> bool {
    |item: Seq<char>| item != domain
}

/// The domains but for `domain`.
pub open spec fn without(domains: Seq<Seq<char>>, domain: Seq<char>) -> Seq<Seq<char>> {
    domains.filter(other_than(domain))
}

impl List {
    /// The file which holds the list.
    pub open spec fn list_file(self) -> PiholeFile {
        match self {
            List::White => PiholeFile::Whitelist,
            List::Black => PiholeFile::Blacklist,
            List::Regex => PiholeFile::Regexlist,
        }
    }

    /// Whether the list takes the text: a regular expression for the regex
    /// list, a domain for the others.
    pub open spec fn takes(self, domain: Seq<char>) -> bool {
        match self {
            List::Regex => regex_compiles(domain),
            _ => valid_domain(domain),
        }
    }

    /// The domains of the list: the lines of its file which are not empty;
    /// none where it has no file.
    pub open spec fn domains(self, env: &Env) -> Seq<Seq<char>> {
        match env.lines(self.list_file()) {
            Some(lines) => named(lines),
            None => Seq::empty(),
        }
    }

    /// The lines of the list's file, none where it has no file.
    pub open spec fn lines(self, env: &Env) -> Seq<Seq<char>> {
        match env.lines(self.list_file()) {
            Some(lines) => lines,
            None => Seq::empty(),
        }
    }

    /// Get the associated `PiholeFile`
    pub fn file(&self) -> (file: PiholeFile)
        ensures
            file == self.list_file(),
    {
        match *self {
            List::White => PiholeFile::Whitelist,
            List::Black => PiholeFile::Blacklist,
            List::Regex => PiholeFile::Regexlist,
        }
    }

    /// Check if the list accepts the domain as valid
    pub fn accepts(&self, domain: &str) -> (r: bool)
        ensures
            r == self.takes(domain@),
    {
        match *self {
            List::Regex => is_valid_regex(domain),
            _ => is_valid_domain(domain),
        }
    }

    /// Read in the domains from the list
    pub fn get(&self, env: &Env) -> (r: Result<Vec<String>, Error>)
        ensures
            r matches Ok(domains) && texts(domains@) == self.domains(env),
    {
        if !env.file_exists(self.file()) {
            // If the file is not found, then the list is empty
            let none: Vec<String> = Vec::new();
            assert(texts(none@) == Seq::<Seq<char>>::empty());
            return Ok(none);
        }
        let lines = match env.read_file_lines(self.file()) {
            Ok(lines) => lines,
            Err(e) => { return Err(e); },
        };
        let ghost all = texts(lines@);
        let ghost keep = |line: Seq<char>| line.len() > 0;
        let mut domains: Vec<String> = Vec::new();
        let mut i: usize = 0;
        assert(all.take(0).filter(keep) == Seq::<Seq<char>>::empty());
        assert(texts(domains@) == Seq::<Seq<char>>::empty());
        while i < lines.len()
            invariant
                i <= lines.len(),
                all == texts(lines@),
                keep == |line: Seq<char>| line.len() > 0,
                texts(domains@) == all.take(i as int).filter(keep),
            decreases lines.len() - i,
        {
            proof {
                assert(all.take(i + 1) == all.take(i as int).push(all[i as int]));
                all.take(i as int).lemma_filter_push(all[i as int], keep);
                assert(all[i as int] == lines@[i as int]@);
            }
            if lines[i].as_str().unicode_len() > 0 {
                let domain = lines[i].clone();
                assert(texts(domains@.push(domain)) == texts(domains@).push(domain@));
                domains.push(domain);
            }
            i = i + 1;
        }
        assert(all.take(lines.len() as int) == all);
        Ok(domains)
    }

    /// Add a domain to the list
    pub fn add(&self, domain: &str, env: &mut Env) -> (r: Result<(), Error>)
        ensures
            final(env).same_but(old(env), self.list_file()),
            !self.takes(domain@) ==> is_error(r, ErrorKind::InvalidDomain)
                && *final(env) == *old(env),
            self.takes(domain@) && self.domains(old(env)).contains(domain@) ==> is_error(r, ErrorKind::AlreadyExists) && *final(env) == *old(env),
            self.takes(domain@) && !self.domains(old(env)).contains(domain@) ==> r is Ok
                && final(env).lines(self.list_file()) == Some(self.lines(old(env)).push(domain@)),
    {
        // Check if it's a valid domain before doing anything
        if !self.accepts(domain) {
            return Err(Error::from(ErrorKind::InvalidDomain));
        }
        // Check if the domain is already in the list
        let domains = match self.get(env) {
            Ok(domains) => domains,
            Err(e) => { return Err(e); },
        };
        if crate::routes::stats::common::contains_text(&domains, domain) {
            return Err(Error::from(ErrorKind::AlreadyExists));
        }
        // Add the domain to the end of the list (and make the list if it doesn't exist)
        let mut lines = match env.take_file_lines(self.file()) {
            Some(lines) => lines,
            None => Vec::new(),
        };
        let line = domain.to_owned();
        assert(texts(lines@.push(line)) == texts(lines@).push(line@));
        lines.push(line);
        env.write_file_lines(self.file(), lines);
        Ok(())
    }

    /// Try to remove a domain from the list, but it is not an error if the
    /// domain does not exist
    pub fn try_remove(&self, domain: &str, env: &mut Env) -> (r: Result<(), Error>)
        ensures
            final(env).same_but(old(env), self.list_file()),
            !self.takes(domain@) ==> is_error(r, ErrorKind::InvalidDomain)
                && *final(env) == *old(env),
            self.takes(domain@) && !self.domains(old(env)).contains(domain@) ==> r is Ok
                && *final(env) == *old(env),
            self.takes(domain@) && self.domains(old(env)).contains(domain@) ==> r is Ok
                && final(env).lines(self.list_file()) == Some(
                without(self.domains(old(env)), domain@),
            ),
    {
        match self.remove(domain, env) {
            // Pass through successful results
            Ok(_) => Ok(()),
            Err(e) => {
                // Ignore NotFound errors
                if e.kind() == ErrorKind::NotFound {
                    Ok(())
                } else {
                    Err(e)
                }
            },
        }
    }

    /// Remove a domain from the list
    pub fn remove(&self, domain: &str, env: &mut Env) -> (r: Result<(), Error>)
        ensures
            final(env).same_but(old(env), self.list_file()),
            !self.takes(domain@) ==> is_error(r, ErrorKind::InvalidDomain)
                && *final(env) == *old(env),
            self.takes(domain@) && !self.domains(old(env)).contains(domain@) ==> is_error(r, ErrorKind::NotFound) && *final(env) == *old(env),
            self.takes(domain@) && self.domains(old(env)).contains(domain@) ==> r is Ok
                && final(env).lines(self.list_file()) == Some(
                without(self.domains(old(env)), domain@),
            ),
    {
        // Check if it's a valid domain before doing anything
        if !self.accepts(domain) {
            return Err(Error::from(ErrorKind::InvalidDomain));
        }
        // Check if the domain is not in the list
        let domains = match self.get(env) {
            Ok(domains) => domains,
            Err(e) => { return Err(e); },
        };
        if !crate::routes::stats::common::contains_text(&domains, domain) {
            return Err(Error::from(ErrorKind::NotFound));
        }
        // Write all domains except the one we're deleting
        let ghost all = texts(domains@);
        let ghost keep = other_than(domain@);
        let mut kept: Vec<String> = Vec::new();
        let mut i: usize = 0;
        assert(all.take(0).filter(keep) == Seq::<Seq<char>>::empty());
        assert(texts(kept@) == Seq::<Seq<char>>::empty());
        while i < domains.len()
            invariant
                i <= domains.len(),
                all == texts(domains@),
                keep == other_than(domain@),
                texts(kept@) == all.take(i as int).filter(keep),
            decreases domains.len() - i,
        {
            proof {
                assert(all.take(i + 1) == all.take(i as int).push(all[i as int]));
                all.take(i as int).lemma_filter_push(all[i as int], keep);
                assert(all[i as int] == domains@[i as int]@);
            }
            if !text_equal(domains[i].as_str(), domain) {
                let item = domains[i].clone();
                assert(texts(kept@.push(item)) == texts(kept@).push(item@));
                kept.push(item);
            }
            i = i + 1;
        }
        assert(all.take(domains.len() as int) == all);
        env.write_file_lines(self.file(), kept);
        Ok(())
    }
}

} // verus!
