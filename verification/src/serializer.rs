//! The structured records derived from raw audit lines, together with
//! their mathematical views and the error taxonomy of the parsing stage.

use vstd::prelude::*;

verus! {

/// The kind of file access that a classified audit record describes.
#[derive(Debug, Clone, Copy, PartialEq, Eq, Structural)]
pub enum OperationKey {
    READ,
    WRITE,
}

/// The character sequence of an operation kind's textual label.
pub open spec fn key_label(k: OperationKey) -> Seq<char> {
    match k {
        OperationKey::READ => seq!['R', 'E', 'A', 'D'],
        OperationKey::WRITE => seq!['W', 'R', 'I', 'T', 'E'],
    }
}

impl OperationKey {
    /// The textual label used when a record is serialized or stored.
    pub fn label(&self) -> (r: String)
        ensures
            r@ == key_label(*self),
    {
        let r = match self {
            OperationKey::READ => String::from_str("READ"),
            OperationKey::WRITE => String::from_str("WRITE"),
        };
        proof {
            reveal_strlit("READ");
            reveal_strlit("WRITE");
            assert(r@ =~= key_label(*self));
        }
        r
    }
}

/// A failure of the parsing stage that is distinct from "no operation
/// observed": the line carries the operation tag but cannot be turned
/// into a complete record.
#[derive(Debug, Clone, Copy, PartialEq, Eq, Structural)]
pub enum AuditError {
    /// The structured timestamp field is absent or does not match the
    /// `audit(<seconds>.<millis>:<id>):` shape.
    MalformedTimestamp,
    /// A field value carries quoting or escapes that cannot be resolved.
    MalformedValue,
}

/// The structured record describing one classified file-access event.
#[derive(Debug)]
pub struct Operation {
    pub user: String,
    pub group: String,
    pub executable: String,
    pub syscall: String,
    pub timestamp: String,
    pub key: OperationKey,
}

/// The mathematical view of an [`Operation`].
#[verifier::ext_equal]
pub struct OperationView {
    pub user: Seq<char>,
    pub group: Seq<char>,
    pub executable: Seq<char>,
    pub syscall: Seq<char>,
    pub timestamp: Seq<char>,
    pub key: OperationKey,
}

impl View for Operation {
    type V = OperationView;

    open spec fn view(&self) -> OperationView {
        OperationView {
            user: self.user@,
            group: self.group@,
            executable: self.executable@,
            syscall: self.syscall@,
            timestamp: self.timestamp@,
            key: self.key,
        }
    }
}

/// The structured record naming one file path touched by a correlated
/// operation. Its timestamp is inherited from that operation, not parsed
/// from the path line itself.
#[derive(Debug)]
pub struct FileOperatedOn {
    pub name: String,
    pub timestamp: String,
}

/// The mathematical view of a [`FileOperatedOn`].
#[verifier::ext_equal]
pub struct FileView {
    pub name: Seq<char>,
    pub timestamp: Seq<char>,
}

impl View for FileOperatedOn {
    type V = FileView;

    open spec fn view(&self) -> FileView {
        FileView { name: self.name@, timestamp: self.timestamp@ }
    }
}

} // verus!
