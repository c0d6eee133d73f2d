//! Docset configuration: named document sets, each with an index
//! directory and base directories, and the shortcuts of the interactive
//! caller. Loading and saving the configuration file are the embedding
//! application's work; this module holds the lookups and updates.

use vstd::prelude::*;

use crate::ErrorKind;
use crate::doctags::string_eq_str;

verus! {

/// One document set: its name, its index directory, and the base
/// directories it indexes.
pub struct DocsetConfig {
    pub name: String,
    pub index: String,
    pub basedirs: Vec<String>,
}

/// How a shortcut's shell command consumes the selected entries.
#[derive(Clone, Copy, Debug, PartialEq, Eq, Structural)]
pub enum CommandType {
    Foreach,
    Eachdir,
}

/// One interactive shortcut: a canned search and the command offered on
/// its results.
pub struct ShortcutConfig {
    pub name: String,
    pub search: String,
    pub command: String,
    pub command_type: CommandType,
}

/// The configuration: the docsets and the shortcuts.
pub struct Config {
    pub docsets: Vec<DocsetConfig>,
    pub shortcuts: Vec<ShortcutConfig>,
}

/// The position of the first docset with the given name, or -1.
pub open spec fn docset_index(s: Seq<DocsetConfig>, name: Seq<char>) -> int
    decreases s.len(),
{
    if s.len() == 0 {
        -1
    } else if s[0].name@ == name {
        0
    } else {
        let rest = docset_index(s.drop_first(), name);
        if rest < 0 {
            -1
        } else {
            1 + rest
        }
    }
}

impl Config {
    /// Returns the first docset of the given name, or `EntryNotFound`
    /// when the configuration names no such docset.
    pub fn docset_config<'a>(&'a self, name: &String) -> (r: Result<&'a DocsetConfig, ErrorKind>)
        ensures
            docset_index(self.docsets@, name@) >= 0 ==> r == Ok::<&'a DocsetConfig, ErrorKind>(
                &self.docsets@[docset_index(self.docsets@, name@)],
            ),
            docset_index(self.docsets@, name@) < 0 ==> r == Err::<&'a DocsetConfig, ErrorKind>(
                ErrorKind::EntryNotFound,
            ),
    {
        let n = self.docsets.len();
        let mut i: usize = 0;
        assert(self.docsets@.skip(0) =~= self.docsets@);
        while i < n
            invariant
                n == self.docsets@.len(),
                0 <= i <= n,
                docset_index(self.docsets@, name@) == (if docset_index(
                    self.docsets@.skip(i as int),
                    name@,
                ) < 0 {
                    -1
                } else {
                    i + docset_index(self.docsets@.skip(i as int), name@)
                }),
            decreases n - i,
        {
            assert(self.docsets@.skip(i as int)[0] == self.docsets@[i as int]);
            if string_eq_str(&self.docsets[i].name, name.as_str()) {
                return Ok(&self.docsets[i]);
            }
            assert(self.docsets@.skip(i as int).drop_first() =~= self.docsets@.skip(i + 1));
            i = i + 1;
        }
        assert(self.docsets@.skip(n as int) =~= Seq::<DocsetConfig>::empty());
        Err(ErrorKind::EntryNotFound)
    }

    /// Replaces the first docset of the same name, or appends the docset
    /// when the name is new; returns its position. The caller persists
    /// the configuration afterwards.
    pub fn update_docset_config(&mut self, config: DocsetConfig) -> (r: usize)
        ensures
            final (self).shortcuts@ == old(self).shortcuts@,
            ({
                let idx = docset_index(old(self).docsets@, config.name@);
                if idx >= 0 {
                    final (self).docsets@ == old(self).docsets@.update(idx, config) && r == idx
                } else {
                    final (self).docsets@ == old(self).docsets@.push(config) && r == old(
                        self,
                    ).docsets@.len()
                }
            }),
    {
        let ghost name_view = config.name@;
        let n = self.docsets.len();
        let mut i: usize = 0;
        assert(self.docsets@.skip(0) =~= self.docsets@);
        while i < n
            invariant
                n == self.docsets@.len(),
                0 <= i <= n,
                self.docsets@ == old(self).docsets@,
                self.shortcuts@ == old(self).shortcuts@,
                name_view == config.name@,
                docset_index(self.docsets@, name_view) == (if docset_index(
                    self.docsets@.skip(i as int),
                    name_view,
                ) < 0 {
                    -1
                } else {
                    i + docset_index(self.docsets@.skip(i as int), name_view)
                }),
            decreases n - i,
        {
            assert(self.docsets@.skip(i as int)[0] == self.docsets@[i as int]);
            if string_eq_str(&self.docsets[i].name, config.name.as_str()) {
                self.docsets.set(i, config);
                return i;
            }
            assert(self.docsets@.skip(i as int).drop_first() =~= self.docsets@.skip(i + 1));
            i = i + 1;
        }
        assert(self.docsets@.skip(n as int) =~= Seq::<DocsetConfig>::empty());
        self.docsets.push(config);
        n
    }
}

} // verus!
