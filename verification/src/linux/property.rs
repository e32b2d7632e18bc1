//! The properties that a limits table can bound, and the labels under which
//! it lists them.

use vstd::prelude::*;
use crate::text::str_eq;

verus! {

/// A property of a process that the operating system can bound. There are
/// these sixteen and no others.
#[derive(Debug, Clone, Copy, PartialEq, Eq)]
pub enum Property {
    MaxCpuTime,
    MaxFileSize,
    MaxDataSize,
    MaxStackSize,
    MaxCoreFileSize,
    MaxResidentSet,
    MaxProcesses,
    MaxOpenFiles,
    MaxLockedMemory,
    MaxAddressSpace,
    MaxFileLocks,
    MaxPendingSignals,
    MaxMsgqueueSize,
    MaxNicePriority,
    MaxRealtimePriority,
    MaxRealtimeTimeout,
}

impl Property {
    /// The label of the property, in lower case. The label of the file size
    /// is written with an underscore, and only so is it known.
    pub open spec fn label_text(self) -> Seq<char> {
        match self {
            Property::MaxCpuTime => "max cpu time"@,
            Property::MaxFileSize => "max file_size"@,
            Property::MaxDataSize => "max data size"@,
            Property::MaxStackSize => "max stack size"@,
            Property::MaxCoreFileSize => "max core file size"@,
            Property::MaxResidentSet => "max resident set"@,
            Property::MaxProcesses => "max processes"@,
            Property::MaxOpenFiles => "max open files"@,
            Property::MaxLockedMemory => "max locked memory"@,
            Property::MaxAddressSpace => "max address space"@,
            Property::MaxFileLocks => "max file locks"@,
            Property::MaxPendingSignals => "max pending signals"@,
            Property::MaxMsgqueueSize => "max msgqueue size"@,
            Property::MaxNicePriority => "max nice priority"@,
            Property::MaxRealtimePriority => "max realtime priority"@,
            Property::MaxRealtimeTimeout => "max realtime timeout"@,
        }
    }

    /// The row of the property in a full table, the first row after the
    /// header counting as row 0.
    pub open spec fn row(self) -> int {
        match self {
            Property::MaxCpuTime => 0,
            Property::MaxFileSize => 1,
            Property::MaxDataSize => 2,
            Property::MaxStackSize => 3,
            Property::MaxCoreFileSize => 4,
            Property::MaxResidentSet => 5,
            Property::MaxProcesses => 6,
            Property::MaxOpenFiles => 7,
            Property::MaxLockedMemory => 8,
            Property::MaxAddressSpace => 9,
            Property::MaxFileLocks => 10,
            Property::MaxPendingSignals => 11,
            Property::MaxMsgqueueSize => 12,
            Property::MaxNicePriority => 13,
            Property::MaxRealtimePriority => 14,
            Property::MaxRealtimeTimeout => 15,
        }
    }

    /// The property that `label` names: the one whose label it is, letter
    /// for letter. A text that is the label of none names none.
    pub open spec fn named(label: Seq<char>) -> Option<Property> {
        if exists|p: Property| p.label_text() == label {
            Some(choose|p: Property| p.label_text() == label)
        } else {
            None
        }
    }

    /// The label of the property, in lower case.
    pub fn label(&self) -> (text: &'static str)
        ensures
            text@ == self.label_text(),
    {
        match self {
            Property::MaxCpuTime => "max cpu time",
            Property::MaxFileSize => "max file_size",
            Property::MaxDataSize => "max data size",
            Property::MaxStackSize => "max stack size",
            Property::MaxCoreFileSize => "max core file size",
            Property::MaxResidentSet => "max resident set",
            Property::MaxProcesses => "max processes",
            Property::MaxOpenFiles => "max open files",
            Property::MaxLockedMemory => "max locked memory",
            Property::MaxAddressSpace => "max address space",
            Property::MaxFileLocks => "max file locks",
            Property::MaxPendingSignals => "max pending signals",
            Property::MaxMsgqueueSize => "max msgqueue size",
            Property::MaxNicePriority => "max nice priority",
            Property::MaxRealtimePriority => "max realtime priority",
            Property::MaxRealtimeTimeout => "max realtime timeout",
        }
    }

    /// No two properties share a label.
    pub proof fn lemma_labels_differ(p: Property, q: Property)
        requires
            p != q,
        ensures
            p.label_text() != q.label_text(),
    {
        reveal_strlit("max cpu time");
        reveal_strlit("max file_size");
        reveal_strlit("max data size");
        reveal_strlit("max stack size");
        reveal_strlit("max core file size");
        reveal_strlit("max resident set");
        reveal_strlit("max processes");
        reveal_strlit("max open files");
        reveal_strlit("max locked memory");
        reveal_strlit("max address space");
        reveal_strlit("max file locks");
        reveal_strlit("max pending signals");
        reveal_strlit("max msgqueue size");
        reveal_strlit("max nice priority");
        reveal_strlit("max realtime priority");
        reveal_strlit("max realtime timeout");
        let a = p.label_text();
        let b = q.label_text();
        if a.len() == b.len() {
            assert(a[4] != b[4] || a[5] != b[5] || a[8] != b[8] || a[9] != b[9]);
        }
    }

    /// Each property is the one that its own label names.
    pub proof fn lemma_named_by_label(p: Property)
        ensures
            Property::named(p.label_text()) == Some(p),
    {
        let q = choose|q: Property| q.label_text() == p.label_text();
        if q != p {
            Property::lemma_labels_differ(q, p);
        }
    }

    /// A text names a property exactly when it is that property's label.
    pub proof fn lemma_named_is_labelled(label: Seq<char>, p: Property)
        ensures
            Property::named(label) == Some(p) <==> label == p.label_text(),
    {
        if label == p.label_text() {
            Property::lemma_named_by_label(p);
        }
    }

    /// The property that `label` names, if it names one. The label is
    /// compared as it stands: lower case is the caller's to provide.
    pub fn from_label(label: &str) -> (property: Option<Property>)
        ensures
            property == Property::named(label@),
    {
        let all = [
            Property::MaxCpuTime,
            Property::MaxFileSize,
            Property::MaxDataSize,
            Property::MaxStackSize,
            Property::MaxCoreFileSize,
            Property::MaxResidentSet,
            Property::MaxProcesses,
            Property::MaxOpenFiles,
            Property::MaxLockedMemory,
            Property::MaxAddressSpace,
            Property::MaxFileLocks,
            Property::MaxPendingSignals,
            Property::MaxMsgqueueSize,
            Property::MaxNicePriority,
            Property::MaxRealtimePriority,
            Property::MaxRealtimeTimeout,
        ];
        let mut i: usize = 0;
        while i < 16
            invariant
                i <= 16,
                all@.len() == 16,
                forall|p: Property| all@[#[trigger] p.row()] == p,
                forall|k: int| 0 <= k < i ==> (#[trigger] all@[k]).label_text() != label@,
            decreases 16 - i,
        {
            let candidate = all[i];
            if str_eq(label, candidate.label()) {
                proof {
                    Property::lemma_named_by_label(candidate);
                }
                return Some(candidate);
            }
            i += 1;
        }
        assert forall|p: Property| p.label_text() != label@ by {
            assert(all@[p.row()].label_text() != label@);
        }
        None
    }
}

} // verus!
