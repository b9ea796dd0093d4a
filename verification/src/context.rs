//! Identifiers and the context in which a runtime acts.
use vstd::prelude::*;
use crate::error::{outcome, QunuxError, QunuxErrorView, Result};
use crate::text::{cat2, cat3, chars_of, opt_view, str_eq};

verus! {

pub const DEFAULT_PROCESS_ID: &'static str = "QP000";

pub const DEFAULT_THREAD_ID: &'static str = "QT000";

/// A character that an identifier may hold.
pub open spec fn id_char(c: char) -> bool {
    ('a' <= c <= 'z') || ('A' <= c <= 'Z') || ('0' <= c <= '9') || c == '-' || c == '_' || c == '.'
}

/// An identifier that is safe as the name of a directory.
pub open spec fn valid_id(id: Seq<char>) -> bool {
    &&& id.len() > 0
    &&& id != "."@
    &&& id != ".."@
    &&& forall|i: int| 0 <= i < id.len() ==> id_char(#[trigger] id[i])
}

/// Checks that `id` is an identifier.
pub fn validate_id(id: &str) -> (r: Result<()>)
    ensures
        r is Ok <==> valid_id(id@),
        r matches Err(e) ==> e@ == QunuxErrorView::InvalidId(id@),
{
    if id.is_empty() || str_eq(id, ".") || str_eq(id, "..") {
        return Err(QunuxError::InvalidId(id.to_owned()));
    }
    let chars = chars_of(id);
    let mut i: usize = 0;
    while i < chars.len()
        invariant
            i <= chars@.len(),
            chars@ == id@,
            forall|j: int| 0 <= j < i ==> id_char(#[trigger] id@[j]),
        decreases chars@.len() - i,
    {
        let c = chars[i];
        if !(('a' <= c && c <= 'z') || ('A' <= c && c <= 'Z') || ('0' <= c && c <= '9') || c == '-'
            || c == '_' || c == '.') {
            assert(!id_char(id@[i as int]));
            return Err(QunuxError::InvalidId(id.to_owned()));
        }
        i = i + 1;
    }
    Ok(())
}

/// The process that serves a session.
pub open spec fn session_process_id(session_id: Seq<char>) -> Seq<char> {
    "QP-"@ + session_id
}

/// The process of a session has an identifier whenever the session has one.
pub proof fn lemma_session_process_id_valid(session_id: Seq<char>)
    requires
        valid_id(session_id),
    ensures
        valid_id(session_process_id(session_id)),
{
    reveal_strlit("QP-");
    reveal_strlit(".");
    reveal_strlit("..");
    let id = session_process_id(session_id);
    assert forall|i: int| 0 <= i < id.len() implies id_char(#[trigger] id[i]) by {
        if i >= 3 {
            assert(id[i] == session_id[i - 3]);
        }
    }
    assert(id[0] == 'Q');
}

/// Different sessions are served by different processes.
pub proof fn law_sessions_have_their_own_process(a: Seq<char>, b: Seq<char>)
    requires
        session_process_id(a) == session_process_id(b),
    ensures
        a == b,
{
    reveal_strlit("QP-");
    assert(a =~= session_process_id(a).skip(3));
    assert(b =~= session_process_id(b).skip(3));
}

/// The process that serves a session, if the session has an identifier.
pub fn process_id_for_session_id(session_id: &str) -> (r: Result<String>)
    ensures
        outcome(r) == (if valid_id(session_id@) {
            Ok(session_process_id(session_id@))
        } else {
            Err(QunuxErrorView::InvalidId(session_id@))
        }),
{
    validate_id(session_id)?;
    let process_id = cat2("QP-", session_id);
    proof {
        lemma_session_process_id_valid(session_id@);
    }
    validate_id(process_id.as_str())?;
    Ok(process_id)
}

/// `tail` below `base`: an absolute `tail` stands for itself.
pub open spec fn path_join(base: Seq<char>, tail: Seq<char>) -> Seq<char> {
    if tail.len() > 0 && tail[0] == '/' {
        tail
    } else if base.len() == 0 || base.last() == '/' {
        base + tail
    } else {
        base + "/"@ + tail
    }
}

/// `tail` below `base`: an absolute `tail` stands for itself.
pub fn join_path(base: &str, tail: &str) -> (r: String)
    ensures
        r@ == path_join(base@, tail@),
{
    let base_len: usize = base.unicode_len();
    if tail.unicode_len() > 0 && tail.get_char(0) == '/' {
        tail.to_owned()
    } else if base_len == 0 || base.get_char(base_len - 1) == '/' {
        cat2(base, tail)
    } else {
        cat3(base, "/", tail)
    }
}

/// Where a runtime lives and for whom it acts.
#[derive(Debug, PartialEq, Eq)]
pub struct RuntimeContext {
    pub workspace_root: String,
    pub process_id: String,
    pub thread_id: String,
    pub actor_session_id: Option<String>,
    pub parent_actor_session_id: Option<String>,
}

/// What a [`RuntimeContext`] says.
#[verifier::ext_equal]
pub struct RuntimeContextView {
    pub workspace_root: Seq<char>,
    pub process_id: Seq<char>,
    pub thread_id: Seq<char>,
    pub actor_session_id: Option<Seq<char>>,
    pub parent_actor_session_id: Option<Seq<char>>,
}

impl View for RuntimeContext {
    type V = RuntimeContextView;

    open spec fn view(&self) -> RuntimeContextView {
        RuntimeContextView {
            workspace_root: self.workspace_root@,
            process_id: self.process_id@,
            thread_id: self.thread_id@,
            actor_session_id: opt_view(self.actor_session_id),
            parent_actor_session_id: opt_view(self.parent_actor_session_id),
        }
    }
}

impl Clone for RuntimeContext {
    fn clone(&self) -> (r: Self)
        ensures
            r@ == self@,
    {
        RuntimeContext {
            workspace_root: self.workspace_root.clone(),
            process_id: self.process_id.clone(),
            thread_id: self.thread_id.clone(),
            actor_session_id: self.actor_session_id.clone(),
            parent_actor_session_id: self.parent_actor_session_id.clone(),
        }
    }
}

impl RuntimeContextView {
    pub open spec fn qunux_dir(self) -> Seq<char> {
        path_join(self.workspace_root, ".qunux"@)
    }

    pub open spec fn process_dir(self) -> Seq<char> {
        path_join(path_join(self.qunux_dir(), "processes"@), self.process_id)
    }

    pub open spec fn state_path(self) -> Seq<char> {
        path_join(self.process_dir(), "closure.json"@)
    }
}

impl RuntimeContext {
    /// The context of the default process and its main thread.
    pub fn new(workspace_root: &str) -> (r: Self)
        ensures
            r@ == (RuntimeContextView {
                workspace_root: workspace_root@,
                process_id: "QP000"@,
                thread_id: "QT000"@,
                actor_session_id: None,
                parent_actor_session_id: None,
            }),
    {
        RuntimeContext {
            workspace_root: workspace_root.to_owned(),
            process_id: DEFAULT_PROCESS_ID.to_owned(),
            thread_id: DEFAULT_THREAD_ID.to_owned(),
            actor_session_id: None,
            parent_actor_session_id: None,
        }
    }

    /// The context of a named process and thread.
    pub fn with_ids(workspace_root: &str, process_id: &str, thread_id: &str) -> (r: Result<Self>)
        ensures
            outcome(r) == (if !valid_id(process_id@) {
                Err(QunuxErrorView::InvalidId(process_id@))
            } else if !valid_id(thread_id@) {
                Err(QunuxErrorView::InvalidId(thread_id@))
            } else {
                Ok(
                    RuntimeContextView {
                        workspace_root: workspace_root@,
                        process_id: process_id@,
                        thread_id: thread_id@,
                        actor_session_id: None,
                        parent_actor_session_id: None,
                    },
                )
            }),
    {
        validate_id(process_id)?;
        validate_id(thread_id)?;
        Ok(
            RuntimeContext {
                workspace_root: workspace_root.to_owned(),
                process_id: process_id.to_owned(),
                thread_id: thread_id.to_owned(),
                actor_session_id: None,
                parent_actor_session_id: None,
            },
        )
    }

    /// The context of the process that serves a session.
    pub fn for_session(workspace_root: &str, actor_session_id: &str) -> (r: Result<Self>)
        ensures
            outcome(r) == (if valid_id(actor_session_id@) {
                Ok(
                    RuntimeContextView {
                        workspace_root: workspace_root@,
                        process_id: session_process_id(actor_session_id@),
                        thread_id: "QT000"@,
                        actor_session_id: Some(actor_session_id@),
                        parent_actor_session_id: None,
                    },
                )
            } else {
                Err(QunuxErrorView::InvalidId(actor_session_id@))
            }),
    {
        validate_id(actor_session_id)?;
        let process_id = process_id_for_session_id(actor_session_id)?;
        Ok(
            RuntimeContext {
                workspace_root: workspace_root.to_owned(),
                process_id,
                thread_id: DEFAULT_THREAD_ID.to_owned(),
                actor_session_id: Some(actor_session_id.to_owned()),
                parent_actor_session_id: None,
            },
        )
    }

    /// The same context, acting for a session.
    pub fn with_actor_session_id(self, actor_session_id: &str) -> (r: Result<Self>)
        ensures
            outcome(r) == (if valid_id(actor_session_id@) {
                Ok(RuntimeContextView { actor_session_id: Some(actor_session_id@), ..self@ })
            } else {
                Err(QunuxErrorView::InvalidId(actor_session_id@))
            }),
    {
        validate_id(actor_session_id)?;
        let mut context = self;
        context.actor_session_id = Some(actor_session_id.to_owned());
        Ok(context)
    }

    /// The same context, below the session that started it.
    pub fn with_parent_actor_session_id(self, parent_actor_session_id: &str) -> (r: Result<Self>)
        ensures
            outcome(r) == (if valid_id(parent_actor_session_id@) {
                Ok(
                    RuntimeContextView {
                        parent_actor_session_id: Some(parent_actor_session_id@),
                        ..self@
                    },
                )
            } else {
                Err(QunuxErrorView::InvalidId(parent_actor_session_id@))
            }),
    {
        validate_id(parent_actor_session_id)?;
        let mut context = self;
        context.parent_actor_session_id = Some(parent_actor_session_id.to_owned());
        Ok(context)
    }

    /// The directory of all processes of the workspace.
    pub fn qunux_dir(&self) -> (r: String)
        ensures
            r@ == self@.qunux_dir(),
    {
        join_path(self.workspace_root.as_str(), ".qunux")
    }

    /// The directory of the process.
    pub fn process_dir(&self) -> (r: String)
        ensures
            r@ == self@.process_dir(),
    {
        let processes = join_path(self.qunux_dir().as_str(), "processes");
        join_path(processes.as_str(), self.process_id.as_str())
    }

    /// The file that holds the state of the process.
    pub fn state_path(&self) -> (r: String)
        ensures
            r@ == self@.state_path(),
    {
        join_path(self.process_dir().as_str(), "closure.json")
    }
}

} // verus!
