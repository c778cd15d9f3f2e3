//! The registry of output surfaces: one surface per live output, keyed by
//! the output's name.

use crate::config::{resolves_monitor, str_eq, Config};
use crate::surface::{OutputSurface, Phase};
use vstd::prelude::*;

verus! {

/// Name used for an output whose name the compositor did not supply.
pub open spec fn unknown_name() -> Seq<char> {
    seq!['u', 'n', 'k', 'n', 'o', 'w', 'n']
}

/// The name an output is registered under.
pub fn resolve_output_name(name: Option<String>) -> (r: String)
    ensures
        r@ == match name {
            Some(n) => n@,
            None => unknown_name(),
        },
{
    match name {
        Some(n) => n,
        None => {
            proof {
                reveal_strlit("unknown");
                assert("unknown"@ =~= unknown_name());
            }
            String::from_str("unknown")
        },
    }
}

/// One registered output: its name, the handles its owner keeps for it, and
/// its surface.
pub struct OutputEntry<T, H> {
    pub name: String,
    pub handles: H,
    pub surface: OutputSurface<T>,
}

/// The live outputs' surfaces, each name at most once.
pub struct SurfaceRegistry<T, H> {
    entries: Vec<OutputEntry<T, H>>,
}

impl<T, H> SurfaceRegistry<T, H> {
    /// The entries, in registration order.
    pub closed spec fn entries_view(&self) -> Seq<OutputEntry<T, H>> {
        self.entries@
    }

    /// Names are distinct and every surface is well formed.
    pub open spec fn wf(&self) -> bool {
        &&& forall|i: int, j: int|
            0 <= i < j < self.entries_view().len() ==> #[trigger] self.entries_view()[i].name@
                != #[trigger] self.entries_view()[j].name@
        &&& forall|i: int|
            0 <= i < self.entries_view().len() ==> #[trigger] self.entries_view()[i].surface.wf()
    }

    /// Whether an output named `name` is registered.
    pub open spec fn contains(&self, name: Seq<char>) -> bool {
        exists|i: int| 0 <= i < self.entries_view().len() && self.entries_view()[i].name@ == name
    }

    /// An empty registry.
    pub fn new() -> (r: Self)
        ensures
            r.wf(),
            r.entries_view().len() == 0,
    {
        SurfaceRegistry { entries: Vec::new() }
    }

    /// Number of registered outputs.
    pub fn len(&self) -> (r: usize)
        ensures
            r == self.entries_view().len(),
    {
        self.entries.len()
    }

    /// Position of the output named `name`, if registered.
    pub fn position(&self, name: &str) -> (r: Option<usize>)
        ensures
            match r {
                Some(i) => i < self.entries_view().len() && self.entries_view()[i as int].name@
                    == name@,
                None => !self.contains(name@),
            },
    {
        let mut i: usize = 0;
        while i < self.entries.len()
            invariant
                i <= self.entries@.len(),
                forall|j: int| 0 <= j < i ==> self.entries@[j].name@ != name@,
            decreases self.entries@.len() - i,
        {
            if str_eq(self.entries[i].name.as_str(), name) {
                return Some(i);
            }
            i = i + 1;
        }
        None
    }

    /// The entry at position `i`.
    pub fn entry(&self, i: usize) -> (r: &OutputEntry<T, H>)
        requires
            i < self.entries_view().len(),
        ensures
            *r == self.entries_view()[i as int],
    {
        &self.entries[i]
    }

    /// The entry at position `i`, for changing its handles or driving its
    /// surface.
    pub fn entry_mut(&mut self, i: usize) -> (r: &mut OutputEntry<T, H>)
        requires
            i < old(self).entries_view().len(),
        ensures
            *r == old(self).entries_view()[i as int],
            final(self).entries_view() == old(self).entries_view().update(i as int, *final(r)),
    {
        &mut self.entries[i]
    }

    /// Registers a newly discovered output under `name`, with a fresh,
    /// unconfigured surface holding the settings that `config` gives that
    /// name. An output already registered under that name is replaced.
    /// Returns the new entry's position.
    pub fn add_output(&mut self, name: String, handles: H, config: &Config) -> (r: usize)
        requires
            old(self).wf(),
        ensures
            final(self).wf(),
            r < final(self).entries_view().len(),
            final(self).entries_view()[r as int].name@ == name@,
            final(self).entries_view()[r as int].handles == handles,
            final(self).entries_view()[r as int].surface@.phase() == Phase::Unconfigured,
            final(self).entries_view()[r as int].surface@.engine is None,
            final(self).entries_view()[r as int].surface.name_view() == name@,
            resolves_monitor(
                *config,
                name@,
                final(self).entries_view()[r as int].surface.config_view(),
            ),
            forall|n: Seq<char>|
                #![auto]
                n != name@ ==> (final(self).contains(n) <==> old(self).contains(n)),
            final(self).contains(name@),
            forall|k: int|
                0 <= k < old(self).entries_view().len() && old(self).entries_view()[k].name@
                    != name@ ==> final(self).entries_view()[k] == old(self).entries_view()[k],
            final(self).entries_view().len() == old(self).entries_view().len() + if old(
                self,
            ).contains(name@) {
                0int
            } else {
                1int
            },
    {
        let monitor_config = config.get_monitor_config(name.as_str());
        let surface = OutputSurface::new(name.clone(), monitor_config);
        let entry = OutputEntry { name, handles, surface };
        let ghost old_entries = self.entries@;
        match self.position(entry.name.as_str()) {
            Some(i) => {
                self.entries.set(i, entry);
                proof {
                    assert(old(self).contains(old(self).entries_view()[i as int].name@));
                    assert forall|a: int, b: int|
                        0 <= a < b < self.entries@.len() implies #[trigger] self.entries@[a].name@
                        != #[trigger] self.entries@[b].name@ by {
                        assert(old_entries[a].name@ != old_entries[b].name@);
                    }
                    assert forall|n: Seq<char>|
                        #![auto]
                        n != self.entries@[i as int].name@ implies (self.contains(n)
                            <==> old(self).contains(n)) by {
                        if self.contains(n) {
                            let k = choose|k: int|
                                0 <= k < self.entries@.len() && self.entries@[k].name@ == n;
                            assert(old_entries[k].name@ == n);
                        }
                        if old(self).contains(n) {
                            let k = choose|k: int|
                                0 <= k < old_entries.len() && old_entries[k].name@ == n;
                            assert(self.entries@[k].name@ == n);
                        }
                    }
                    assert forall|k: int|
                        0 <= k < self.entries_view().len() implies #[trigger] self.entries_view()[k].surface.wf() by {
                        if k != i {
                            assert(self.entries_view()[k] == old(self).entries_view()[k]);
                        }
                    }
                }
                i
            },
            None => {
                let ghost key = entry.name@;
                self.entries.push(entry);
                let last = self.entries.len() - 1;
                proof {
                    assert forall|a: int, b: int|
                        0 <= a < b < self.entries_view().len() implies #[trigger] self.entries_view()[a].name@
                        != #[trigger] self.entries_view()[b].name@ by {
                        assert(self.entries_view()[a] == old(self).entries_view()[a]);
                        if b < last {
                            assert(self.entries_view()[b] == old(self).entries_view()[b]);
                            assert(old(self).entries_view()[a].name@ != old(
                                self,
                            ).entries_view()[b].name@);
                        } else if old(self).entries_view()[a].name@ == key {
                            assert(old(self).contains(key));
                        }
                    }
                    assert forall|n: Seq<char>|
                        #![auto]
                        n != key implies (self.contains(n) <==> old(self).contains(n)) by {
                        if self.contains(n) {
                            let k = choose|k: int|
                                0 <= k < self.entries_view().len() && self.entries_view()[k].name@
                                    == n;
                            assert(k < last);
                            assert(old(self).entries_view()[k].name@ == n);
                        }
                        if old(self).contains(n) {
                            let k = choose|k: int|
                                0 <= k < old(self).entries_view().len() && old(
                                    self,
                                ).entries_view()[k].name@ == n;
                            assert(self.entries_view()[k].name@ == n);
                        }
                    }
                    assert(self.entries_view()[last as int].name@ == key);
                    assert forall|k: int|
                        0 <= k < self.entries_view().len() implies #[trigger] self.entries_view()[k].surface.wf() by {
                        if k < last {
                            assert(self.entries_view()[k] == old(self).entries_view()[k]);
                        }
                    }
                }
                last
            },
        }
    }

    /// Drops the output named `name`, and with it its surface. Returns the
    /// removed entry, if there was one.
    pub fn remove_output(&mut self, name: &str) -> (r: Option<OutputEntry<T, H>>)
        requires
            old(self).wf(),
        ensures
            final(self).wf(),
            !final(self).contains(name@),
            forall|n: Seq<char>|
                #![auto]
                n != name@ ==> (final(self).contains(n) <==> old(self).contains(n)),
            r is Some <==> old(self).contains(name@),
            r is None ==> final(self).entries_view() == old(self).entries_view(),
            r matches Some(e) ==> exists|i: int|
                0 <= i < old(self).entries_view().len() && e == old(self).entries_view()[i]
                    && e.name@ == name@ && final(self).entries_view() == old(
                    self,
                ).entries_view().remove(i),
    {
        let ghost old_entries = self.entries@;
        match self.position(name) {
            Some(i) => {
                let e = self.entries.remove(i);
                assert(e == old(self).entries_view()[i as int]);
                proof {
                    assert forall|a: int, b: int|
                        0 <= a < b < self.entries@.len() implies #[trigger] self.entries@[a].name@
                        != #[trigger] self.entries@[b].name@ by {
                        let oa = if a < i { a } else { a + 1 };
                        let ob = if b < i { b } else { b + 1 };
                        assert(self.entries@[a] == old_entries[oa]);
                        assert(self.entries@[b] == old_entries[ob]);
                        assert(old_entries[oa].name@ != old_entries[ob].name@);
                    }
                    assert forall|k: int| 0 <= k < self.entries@.len() implies #[trigger] self.entries@[k].surface.wf() by {
                        let ok = if k < i { k } else { k + 1 };
                        assert(self.entries@[k] == old_entries[ok]);
                    }
                    if self.contains(name@) {
                        let k = choose|k: int|
                            0 <= k < self.entries@.len() && self.entries@[k].name@ == name@;
                        let ok = if k < i { k } else { k + 1 };
                        assert(self.entries@[k] == old_entries[ok]);
                        if ok < i {
                            assert(old_entries[ok].name@ != old_entries[i as int].name@);
                        } else {
                            assert(old_entries[i as int].name@ != old_entries[ok].name@);
                        }
                    }
                    assert forall|n: Seq<char>|
                        #![auto]
                        n != name@ implies (self.contains(n) <==> old(self).contains(n)) by {
                        if self.contains(n) {
                            let k = choose|k: int|
                                0 <= k < self.entries_view().len() && self.entries_view()[k].name@
                                    == n;
                            let ok = if k < i { k } else { k + 1 };
                            assert(self.entries_view()[k] == old(self).entries_view()[ok]);
                            assert(old(self).entries_view()[ok].name@ == n);
                        }
                        if old(self).contains(n) {
                            let k = choose|k: int|
                                0 <= k < old(self).entries_view().len() && old(
                                    self,
                                ).entries_view()[k].name@ == n;
                            assert(k != i);
                            let nk = if k < i { k } else { k - 1 };
                            assert(self.entries_view()[nk] == old(self).entries_view()[k]);
                            assert(self.entries_view()[nk].name@ == n);
                        }
                    }
                }
                Some(e)
            },
            None => None,
        }
    }
}

} // verus!
