//! The service of the domain lists (whitelist, blacklist, regex list).
//!
//! A change of a list has to reach the daemon: gravity is reloaded, or the
//! daemon is told to compile its regular expressions again. The service
//! changes the list and says which of the two is due; to do it is the
//! caller's part.

use crate::env::Env;
use crate::routes::dns::list::{named, other_than, without, List};
use crate::routes::stats::common::contains_text;
use crate::sequences::lemma_keeps_all;
use crate::text::texts;
use crate::util::{is_error, Error, ErrorKind};
use vstd::prelude::*;

verus! {

/// The command which tells the daemon to compile its regular expressions again.
pub const RECOMPILE_REGEX: &'static str = "recompile-regex";

/// What is due after a list has changed.
#[derive(Clone, Copy, Debug, PartialEq, Eq, Structural)]
pub enum ListUpdate {
    /// Gravity has to be reloaded for the list.
    ReloadGravity(List),
    /// The daemon has to compile its regular expressions again.
    RecompileRegex,
}

impl ListUpdate {
    /// What is due after a change of `list`.
    pub open spec fn after(list: List) -> ListUpdate {
        match list {
            List::Regex => ListUpdate::RecompileRegex,
            _ => ListUpdate::ReloadGravity(list),
        }
    }

    /// What is due after a change of `list`.
    pub fn for_list(list: List) -> (update: ListUpdate)
        ensures
            update == ListUpdate::after(list),
    {
        match list {
            List::Regex => ListUpdate::RecompileRegex,
            _ => ListUpdate::ReloadGravity(list),
        }
    }
}

/// The option which makes gravity reload no more than the list needs. The
/// regex list has none: gravity does not hold it.
pub open spec fn gravity_option(list: List) -> Option<Seq<char>> {
    match list {
        List::White => Some("--whitelist-only"@),
        List::Black => Some("--blacklist-only"@),
        List::Regex => None,
    }
}

/// Get the option which makes gravity reload no more than the list needs.
pub fn reload_option(list: List) -> (r: Result<&'static str, Error>)
    ensures
        match gravity_option(list) {
            Some(option) => r matches Ok(text) && text@ == option,
            None => is_error(r, ErrorKind::Unknown),
        },
{
    match list {
        List::White => Ok("--whitelist-only"),
        List::Black => Ok("--blacklist-only"),
        List::Regex => Err(Error::from(ErrorKind::Unknown)),
    }
}

/// The list which may not hold a domain of `list`: the blacklist for the
/// whitelist and the other way round.
pub open spec fn opposite(list: List) -> Option<List> {
    match list {
        List::White => Some(List::Black),
        List::Black => Some(List::White),
        List::Regex => None,
    }
}

/// Whether the lists but for `list` are the same in both stores.
pub open spec fn same_but<R: ListRepository>(store: &R, other: &R, list: List) -> bool {
    forall|l: List| l != list ==> #[trigger] store.domains(l) == other.domains(l)
}

/// Whether the lists are the same in both stores.
pub open spec fn same<R: ListRepository>(store: &R, other: &R) -> bool {
    forall|l: List| #[trigger] store.domains(l) == other.domains(l)
}

/// Describes interactions with the store of the domain lists
pub trait ListRepository: Sized {
    /// The domains of a list.
    spec fn domains(&self, list: List) -> Seq<Seq<char>>;

    /// Get all of the domains in the list
    fn get(&self, list: List) -> (r: Result<Vec<String>, Error>)
        ensures
            r matches Ok(domains) ==> texts(domains@) == self.domains(list),
    ;

    /// Check if the list holds the domain
    fn contains(&self, list: List, domain: &str) -> (r: Result<bool, Error>)
        ensures
            r matches Ok(found) ==> found == self.domains(list).contains(domain@),
    ;

    /// Add a domain to the list
    fn add(&mut self, list: List, domain: &str) -> (r: Result<(), Error>)
        ensures
            forall|l: List| l != list ==> #[trigger] final(self).domains(l) == old(self).domains(l),
            r is Ok ==> final(self).domains(list) == old(self).domains(list).push(domain@),
            r is Err ==> final(self).domains(list) == old(self).domains(list),
    ;

    /// Remove a domain from the list
    fn remove(&mut self, list: List, domain: &str) -> (r: Result<(), Error>)
        ensures
            forall|l: List| l != list ==> #[trigger] final(self).domains(l) == old(self).domains(l),
            r is Ok ==> final(self).domains(list) == without(old(self).domains(list), domain@),
            r is Err ==> final(self).domains(list) == old(self).domains(list),
    ;
}

/// What a look into a list means for adding to it: the domain can be added
/// where it was not found, it exists already where it was found, and a look
/// that failed fails the adding.
pub open spec fn absent(found: Result<bool, Error>) -> Result<(), Error> {
    match found {
        Ok(false) => Ok(()),
        Ok(true) => Err(Error::spec_from(ErrorKind::AlreadyExists)),
        Err(e) => Err(e),
    }
}

/// What a look into a list means for removing from it: the domain can be
/// removed where it was found, there is nothing to remove where it was not,
/// and a look that failed fails the removing.
pub open spec fn present(found: Result<bool, Error>) -> Result<(), Error> {
    match found {
        Ok(true) => Ok(()),
        Ok(false) => Err(Error::spec_from(ErrorKind::NotFound)),
        Err(e) => Err(e),
    }
}

/// A result in which it is no failure that nothing was found.
pub open spec fn unless_not_found(result: Result<(), Error>) -> Result<(), Error> {
    match result {
        Ok(_) => Ok(()),
        Err(e) => if e.spec_kind() == ErrorKind::NotFound {
            Ok(())
        } else {
            Err(e)
        },
    }
}

/// Check that a list does not hold the domain yet.
pub fn check_absent(found: Result<bool, Error>) -> (r: Result<(), Error>)
    ensures
        r == absent(found),
{
    match found {
        Ok(false) => Ok(()),
        Ok(true) => Err(Error::from(ErrorKind::AlreadyExists)),
        Err(e) => Err(e),
    }
}

/// Check that a list holds the domain.
pub fn check_present(found: Result<bool, Error>) -> (r: Result<(), Error>)
    ensures
        r == present(found),
{
    match found {
        Ok(true) => Ok(()),
        Ok(false) => Err(Error::from(ErrorKind::NotFound)),
        Err(e) => Err(e),
    }
}

/// Pass a result on, but take it for a success that nothing was found.
pub fn ignore_not_found(result: Result<(), Error>) -> (r: Result<(), Error>)
    ensures
        r == unless_not_found(result),
{
    match result {
        // Pass through successful results
        Ok(_) => Ok(()),
        Err(e) => {
            // Ignore NotFound errors
            if e.kind() == ErrorKind::NotFound {
                Ok(())
            } else {
                Err(e)
            }
        },
    }
}

/// The lists in their files.
impl ListRepository for Env {
    open spec fn domains(&self, list: List) -> Seq<Seq<char>> {
        list.domains(self)
    }

    /// Reads the domains of the list from its file. The files are at hand:
    /// the reading succeeds.
    fn get(&self, list: List) -> (r: Result<Vec<String>, Error>)
        ensures
            r matches Ok(domains) && texts(domains@) == list.domains(self),
    {
        list.get(self)
    }

    /// Says whether the file of the list names the domain. The files are at
    /// hand: the look succeeds.
    fn contains(&self, list: List, domain: &str) -> (r: Result<bool, Error>)
        ensures
            r matches Ok(found) && found == list.domains(self).contains(domain@),
    {
        match list.get(self) {
            Ok(domains) => Ok(contains_text(&domains, domain)),
            Err(e) => Err(e),
        }
    }

    /// Puts the domain behind the lines of the list's file, and makes the
    /// file where there is none. An empty text names no domain: it is
    /// refused, and the files stay as they are. Whether the list accepts
    /// the domain, or holds it already, is not looked at here.
    fn add(&mut self, list: List, domain: &str) -> (r: Result<(), Error>)
        ensures
            final(self).same_but(old(self), list.list_file()),
            domain@.len() == 0 ==> is_error(r, ErrorKind::InvalidDomain) && *final(self) == *old(self),
            domain@.len() > 0 ==> r is Ok && final(self).lines(list.list_file()) == Some(
                list.lines(old(self)).push(domain@),
            ),
    {
        if domain.unicode_len() == 0 {
            // An empty line names no domain
            return Err(Error::from(ErrorKind::InvalidDomain));
        }
        let mut lines = match self.take_file_lines(list.file()) {
            Some(lines) => lines,
            None => Vec::new(),
        };
        let line = domain.to_owned();
        proof {
            assert(texts(lines@.push(line)) == texts(lines@).push(line@));
            texts(lines@).lemma_filter_push(line@, |line: Seq<char>| line.len() > 0);
            assert(texts(Seq::<String>::empty()) == Seq::<Seq<char>>::empty());
            assert(Seq::<Seq<char>>::empty().filter(|line: Seq<char>| line.len() > 0)
                == Seq::<Seq<char>>::empty());
        }
        lines.push(line);
        self.write_file_lines(list.file(), lines);
        proof {
            lemma_other_lists(old(self), self, list);
        }
        Ok(())
    }

    /// Takes the domain out of the list's file: the file is written anew
    /// with the domains of the list but this one. A text which the list
    /// does not accept is refused. It is no failure that the list does not
    /// hold the domain; the files stay as they are then, as they do after a
    /// refusal.
    fn remove(&mut self, list: List, domain: &str) -> (r: Result<(), Error>)
        ensures
            final(self).same_but(old(self), list.list_file()),
            !list.takes(domain@) ==> is_error(r, ErrorKind::InvalidDomain) && *final(self) == *old(self),
            list.takes(domain@) && !list.domains(old(self)).contains(domain@) ==> r is Ok
                && *final(self) == *old(self),
            list.takes(domain@) && list.domains(old(self)).contains(domain@) ==> r is Ok
                && final(self).lines(list.list_file()) == Some(
                without(list.domains(old(self)), domain@),
            ),
    {
        let ghost before = *self;
        let r = ignore_not_found(list.remove(domain, self));
        proof {
            lemma_other_lists(&before, self, list);
            if list.takes(domain@) {
                if list.domains(&before).contains(domain@) {
                    lemma_named_stay(list.lines(&before), domain@);
                } else {
                    lemma_without_absent(list.domains(&before), domain@);
                }
            }
        }
        r
    }
}

/// A change of the file of one list leaves the other lists as they were.
proof fn lemma_other_lists(before: &Env, after: &Env, list: List)
    requires
        after.same_but(before, list.list_file()),
    ensures
        forall|l: List| l != list ==> #[trigger] l.domains(after) == l.domains(before),
{
    assert forall|l: List| l != list implies #[trigger] l.domains(after) == l.domains(before) by {
        assert(l.list_file() != list.list_file());
    }
}

/// What is left of the named lines without a domain are named lines.
proof fn lemma_named_stay(lines: Seq<Seq<char>>, domain: Seq<char>)
    ensures
        named(without(named(lines), domain))
            == without(named(lines), domain),
{
    let is_named = |line: Seq<char>| line.len() > 0;
    let other = other_than(domain);
    let domains = lines.filter(is_named);
    let kept = domains.filter(other);
    assert forall|i: int| 0 <= i < kept.len() implies is_named(#[trigger] kept[i]) by {
        assert(kept.contains(kept[i]));
        domains.lemma_filter_contains_rev(other, kept[i]);
        let j = choose|j: int| 0 <= j < domains.len() && domains[j] == kept[i];
        lines.lemma_filter_pred(is_named, j);
    }
    lemma_keeps_all(kept, is_named);
}

/// To take a domain out of a list which does not hold it changes nothing.
pub proof fn lemma_without_absent(domains: Seq<Seq<char>>, domain: Seq<char>)
    requires
        !domains.contains(domain),
    ensures
        without(domains, domain) == domains,
{
    let other = other_than(domain);
    assert forall|i: int| 0 <= i < domains.len() implies other(#[trigger] domains[i]) by {
        assert(domains.contains(domains[i]));
    }
    lemma_keeps_all(domains, other);
}

/// Describes interactions with the Pi-hole domain lists (whitelist, blacklist,
/// and regexlist)
pub trait ListService {
    /// Add a domain to the list and update other lists accordingly.
    /// Example: when adding to the whitelist, remove from the blacklist.
    fn add(&mut self, list: List, domain: &str) -> Result<ListUpdate, Error>;

    /// Remove a domain from the list
    fn remove(&mut self, list: List, domain: &str) -> Result<ListUpdate, Error>;

    /// Get all of the domains in the list
    fn get(&self, list: List) -> Result<Vec<String>, Error>;
}

/// The implementation of `ListService`
pub struct ListServiceImpl<R: ListRepository> {
    pub repo: R,
}

impl<R: ListRepository> ListServiceImpl<R> {
    /// A service on the given store.
    pub fn new(repo: R) -> (service: Self)
        ensures
            service.repo == repo,
    {
        ListServiceImpl { repo }
    }

    /// Simply add a domain to the list
    pub fn add_raw(&mut self, list: List, domain: &str) -> (r: Result<(), Error>)
        ensures
            same_but(&final(self).repo, &old(self).repo, list),
            !list.takes(domain@) ==> is_error(r, ErrorKind::InvalidDomain),
            list.takes(domain@) && old(self).repo.domains(list).contains(domain@) ==> r is Err,
            r is Ok ==> list.takes(domain@) && !old(self).repo.domains(list).contains(domain@)
                && final(self).repo.domains(list) == old(self).repo.domains(list).push(domain@),
            r is Err ==> final(self).repo.domains(list) == old(self).repo.domains(list),
    {
        // Check if it's a valid domain before doing anything
        if !list.accepts(domain) {
            return Err(Error::from(ErrorKind::InvalidDomain));
        }
        // Check if the domain is already in the list
        match check_absent(self.repo.contains(list, domain)) {
            Ok(_) => {},
            Err(e) => { return Err(e); },
        }
        self.repo.add(list, domain)
    }

    /// Try to remove a domain from the list, but it is not an error if the
    /// domain does not exist
    pub fn try_remove_raw(&mut self, list: List, domain: &str) -> (r: Result<(), Error>)
        ensures
            same_but(&final(self).repo, &old(self).repo, list),
            !list.takes(domain@) ==> is_error(r, ErrorKind::InvalidDomain),
            r is Ok ==> list.takes(domain@) && (final(self).repo.domains(list) == without(
                old(self).repo.domains(list),
                domain@,
            ) || final(self).repo.domains(list) == old(self).repo.domains(list)),
            r is Err ==> final(self).repo.domains(list) == old(self).repo.domains(list),
    {
        ignore_not_found(self.remove_raw(list, domain))
    }

    /// Simply remove a domain from the list
    pub fn remove_raw(&mut self, list: List, domain: &str) -> (r: Result<(), Error>)
        ensures
            same_but(&final(self).repo, &old(self).repo, list),
            !list.takes(domain@) ==> is_error(r, ErrorKind::InvalidDomain),
            list.takes(domain@) && !old(self).repo.domains(list).contains(domain@) ==> r is Err,
            r is Ok ==> list.takes(domain@) && old(self).repo.domains(list).contains(domain@)
                && final(self).repo.domains(list) == without(
                old(self).repo.domains(list),
                domain@,
            ),
            r is Err ==> final(self).repo.domains(list) == old(self).repo.domains(list),
            r matches Err(e) ==> e.spec_kind() == ErrorKind::NotFound ==> list.takes(domain@)
                && final(self).repo.domains(list) == old(self).repo.domains(list),
    {
        // Check if it's a valid domain before doing anything
        if !list.accepts(domain) {
            return Err(Error::from(ErrorKind::InvalidDomain));
        }
        // Check if the domain is not in the list
        match check_present(self.repo.contains(list, domain)) {
            Ok(_) => {},
            Err(e) => { return Err(e); },
        }
        self.repo.remove(list, domain)
    }
}

impl<R: ListRepository> ListService for ListServiceImpl<R> {
    /// Adds the domain to the list and, for the whitelist and the blacklist,
    /// takes it out of the other of the two. What is due afterwards is
    /// returned. A store that fails fails the adding; the domain stays added
    /// where only the removal from the other list failed. The other list
    /// stays as it was where the store says that it found nothing to remove.
    fn add(&mut self, list: List, domain: &str) -> (r: Result<ListUpdate, Error>)
        ensures
            !list.takes(domain@) ==> is_error(r, ErrorKind::InvalidDomain) && same(&final(self).repo, &old(self).repo),
            list.takes(domain@) && old(self).repo.domains(list).contains(domain@) ==> r is Err
                && same(&final(self).repo, &old(self).repo),
            r is Ok ==> r == Ok::<ListUpdate, Error>(ListUpdate::after(list)) && final(self).repo.domains(list) == old(self).repo.domains(list).push(domain@),
            r is Ok ==> (opposite(list) matches Some(other) ==> final(self).repo.domains(other)
                == without(old(self).repo.domains(other), domain@) || final(self).repo.domains(
                other,
            ) == old(self).repo.domains(other)),
            forall|l: List|
                l != list && opposite(list) != Some(l) ==> final(self).repo.domains(l) == old(self).repo.domains(l),
    {
        match list {
            List::White => {
                // We need to add it to the whitelist and remove it from the blacklist
                match self.add_raw(List::White, domain) {
                    Ok(_) => {},
                    Err(e) => { return Err(e); },
                }
                match self.try_remove_raw(List::Black, domain) {
                    Ok(_) => {},
                    Err(e) => { return Err(e); },
                }
                // Since we haven't hit an error yet, gravity has to be reloaded
                Ok(ListUpdate::for_list(List::White))
            },
            List::Black => {
                // We need to add it to the blacklist and remove it from the whitelist
                match self.add_raw(List::Black, domain) {
                    Ok(_) => {},
                    Err(e) => { return Err(e); },
                }
                match self.try_remove_raw(List::White, domain) {
                    Ok(_) => {},
                    Err(e) => { return Err(e); },
                }
                // Since we haven't hit an error yet, gravity has to be reloaded
                Ok(ListUpdate::for_list(List::Black))
            },
            List::Regex => {
                // We only need to add it to the regex list
                match self.add_raw(List::Regex, domain) {
                    Ok(_) => {},
                    Err(e) => { return Err(e); },
                }
                // Since we haven't hit an error yet, the daemon has to recompile regex
                Ok(ListUpdate::for_list(List::Regex))
            },
        }
    }

    /// Removes the domain from the list. What is due afterwards is returned.
    fn remove(&mut self, list: List, domain: &str) -> (r: Result<ListUpdate, Error>)
        ensures
            same_but(&final(self).repo, &old(self).repo, list),
            !list.takes(domain@) ==> is_error(r, ErrorKind::InvalidDomain),
            list.takes(domain@) && !old(self).repo.domains(list).contains(domain@) ==> r is Err,
            r is Ok ==> r == Ok::<ListUpdate, Error>(ListUpdate::after(list)) && final(self).repo.domains(list) == without(old(self).repo.domains(list), domain@),
            r is Err ==> final(self).repo.domains(list) == old(self).repo.domains(list),
    {
        match self.remove_raw(list, domain) {
            Ok(_) => Ok(ListUpdate::for_list(list)),
            Err(e) => Err(e),
        }
    }

    /// Gets the domains of the list, as the store has them.
    fn get(&self, list: List) -> (r: Result<Vec<String>, Error>)
        ensures
            r matches Ok(domains) ==> texts(domains@) == self.repo.domains(list),
    {
        self.repo.get(list)
    }
}

} // verus!
