//! The editor's open tabs: one project per tab, with one of them selected.

use vstd::prelude::*;
use vstd::string::StringExecFns;
use crate::project::Project;
use crate::project::ProjectV;

verus! {

/// The open tabs and the selection.
pub struct Tabs {
    tabs: Vec<Project>,
    selected_tab: Option<usize>,
}

/// Mathematical model of the tab strip.
#[verifier::ext_equal]
pub struct TabsV {
    pub tabs: Seq<ProjectV>,
    pub selected: Option<usize>,
}

/// The model of a list of projects.
pub open spec fn projects_view(s: Seq<Project>) -> Seq<ProjectV> {
    s.map_values(|p: Project| p@)
}

impl View for Tabs {
    type V = TabsV;

    closed spec fn view(&self) -> TabsV {
        TabsV { tabs: projects_view(self.tabs@), selected: self.selected_tab }
    }
}

impl Tabs {
    /// A tab strip with one fresh project, selected.
    pub fn new() -> (r: Tabs)
        ensures
            r@.tabs.len() == 1,
            r@.selected == Some(0usize),
            r@.tabs[0].available == Seq::<(Seq<char>, crate::project::ProjNodeV)>::empty(),
            r@.tabs[0].graph.nodes == Seq::<crate::graph::NodeInstanceV>::empty(),
            r@.tabs[0].graph.links == Seq::<crate::graph::LinkV>::empty(),
            r@.tabs[0].file_path is None,
    {
        let mut tabs: Vec<Project> = Vec::new();
        tabs.push(Project::new());
        let r = Tabs { tabs, selected_tab: Some(0) };
        proof {
            assert(r@.tabs.len() == 1);
        }
        r
    }

    /// The number of open tabs.
    pub fn len(&self) -> (r: usize)
        ensures
            r == self@.tabs.len(),
    {
        self.tabs.len()
    }

    /// The selected project, read-only; `None` when nothing valid is
    /// selected.
    pub fn selected_project(&self) -> (r: Option<&Project>)
        ensures
            match self@.selected {
                Some(i) => if i < self@.tabs.len() {
                    r is Some && r->0@ == self@.tabs[i as int]
                } else {
                    r is None
                },
                None => r is None,
            },
    {
        match self.selected_tab {
            Some(i) => if i < self.tabs.len() {
                Some(&self.tabs[i])
            } else {
                None
            },
            None => None,
        }
    }

    /// Write access to the project at a given tab; everything else of the
    /// strip stays as it is.
    pub fn project_mut(&mut self, i: usize) -> (r: &mut Project)
        requires
            i < old(self)@.tabs.len(),
        ensures
            (*r)@ == old(self)@.tabs[i as int],
            final(self)@ == (TabsV {
                tabs: old(self)@.tabs.update(i as int, (*final(r))@),
                selected: old(self)@.selected,
            }),
    {
        let r = &mut self.tabs[i];
        proof {
            assert(projects_view(old(self).tabs@).update(i as int, (*final(r))@)
                =~= projects_view(old(self).tabs@.update(i as int, *final(r))));
        }
        r
    }

    /// Selects a tab; a stale index is a no-op.
    pub fn select_tab(&mut self, tab: usize)
        ensures
            final(self)@ == (TabsV {
                tabs: old(self)@.tabs,
                selected: if tab < old(self)@.tabs.len() {
                    Some(tab)
                } else {
                    old(self)@.selected
                },
            }),
    {
        if tab < self.tabs.len() {
            self.selected_tab = Some(tab);
        }
    }

    /// The index of the selected tab, if any.
    pub fn selected_tab(&self) -> (r: Option<usize>)
        ensures
            r == self@.selected,
    {
        self.selected_tab
    }

    /// Opens a fresh tab and selects it.
    pub fn new_tab(&mut self)
        ensures
            final(self)@.tabs.len() == old(self)@.tabs.len() + 1,
            forall|j: int|
                0 <= j < old(self)@.tabs.len() ==> final(self)@.tabs[j] == old(self)@.tabs[j],
            final(self)@.tabs.last().available == Seq::<
                (Seq<char>, crate::project::ProjNodeV),
            >::empty(),
            final(self)@.tabs.last().graph.nodes == Seq::<crate::graph::NodeInstanceV>::empty(),
            final(self)@.tabs.last().graph.links == Seq::<crate::graph::LinkV>::empty(),
            final(self)@.tabs.last().file_path is None,
            final(self)@.selected == Some(old(self)@.tabs.len() as usize),
    {
        let ghost prev = self.tabs@;
        self.tabs.push(Project::new());
        self.selected_tab = Some(self.tabs.len() - 1);
        proof {
            assert(projects_view(self.tabs@) =~= projects_view(prev).push(self.tabs@.last()@));
        }
    }

    /// Closes a tab; the selection moves to the nearest remaining tab, or
    /// away entirely when none is left. A stale index is a no-op.
    pub fn close_tab(&mut self, tab: usize)
        ensures
            if tab < old(self)@.tabs.len() {
                &&& final(self)@.tabs == old(self)@.tabs.remove(tab as int)
                &&& final(self)@.selected == (if old(self)@.tabs.len() == 1 {
                    None::<usize>
                } else {
                    match old(self)@.selected {
                        Some(s) => Some(
                            if (s as int) <= old(self)@.tabs.len() - 2 {
                                s
                            } else {
                                (old(self)@.tabs.len() - 2) as usize
                            },
                        ),
                        None => None,
                    }
                })
            } else {
                final(self)@ == old(self)@
            },
    {
        if tab < self.tabs.len() {
            let ghost prev = self.tabs@;
            self.tabs.remove(tab);
            proof {
                assert(projects_view(self.tabs@) =~= projects_view(prev).remove(tab as int));
            }
            self.selected_tab = if self.tabs.len() == 0 {
                None
            } else {
                match self.selected_tab {
                    Some(s) => Some(
                        if s <= self.tabs.len() - 1 {
                            s
                        } else {
                            self.tabs.len() - 1
                        },
                    ),
                    None => None,
                }
            };
        }
    }

    /// The title of every tab: its file path, or a placeholder for an
    /// unsaved tab.
    pub fn tab_titles(&self) -> (r: Vec<String>)
        ensures
            r@.len() == self@.tabs.len(),
            forall|i: int|
                0 <= i < r@.len() ==> (#[trigger] r@[i]@) == (match self@.tabs[i].file_path {
                    Some(p) => p,
                    None => "Untitled"@,
                }),
    {
        let mut r: Vec<String> = Vec::new();
        let mut i: usize = 0;
        while i < self.tabs.len()
            invariant
                i <= self.tabs@.len(),
                self@.tabs.len() == self.tabs@.len(),
                r@.len() == i,
                forall|j: int|
                    0 <= j < i ==> (#[trigger] r@[j]@) == (match self@.tabs[j].file_path {
                        Some(p) => p,
                        None => "Untitled"@,
                    }),
            decreases self.tabs@.len() - i,
        {
            let ghost prev = r@;
            let title = match self.tabs[i].file_path() {
                Some(p) => p.clone(),
                None => String::from_str("Untitled"),
            };
            r.push(title);
            proof {
                assert(forall|j: int| 0 <= j < i ==> r@[j] == prev[j]);
                assert(self@.tabs[i as int] == self.tabs@[i as int]@);
            }
            i = i + 1;
        }
        r
    }
}

} // verus!
