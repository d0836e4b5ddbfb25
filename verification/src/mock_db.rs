//! The mock database backend.
//!
//! The mock stands in for the real document database during development
//! and tests: it answers the health-check command and refuses
//! everything else.  Commands and replies are small key-value
//! documents.

use vstd::prelude::*;
use crate::byteseq::bytes_eq;
use crate::error::{ContentError, ErrorKind};
use crate::literals::{lit_ok, lit_ping, lit_ping_vec};

verus! {

/// Mathematical model of a document value.
pub ghost enum DocValueModel {
    Text(Seq<char>),
    Int(int),
}

/// A value held by a command or reply document.
#[derive(Debug, PartialEq, Eq)]
pub enum DocValue {
    Text(String),
    Int(i64),
}

impl View for DocValue {
    type V = DocValueModel;

    open spec fn view(&self) -> DocValueModel {
        match self {
            DocValue::Text(s) => DocValueModel::Text(s@),
            DocValue::Int(n) => DocValueModel::Int(*n as int),
        }
    }
}

/// A key-value document, in insertion order.
#[derive(Debug, PartialEq, Eq)]
pub struct Document {
    pub entries: Vec<(Vec<u8>, DocValue)>,
}

/// Does the document hold an entry under `key`?
pub open spec fn doc_has_key(d: Seq<(Seq<u8>, DocValueModel)>, key: Seq<u8>) -> bool {
    exists|i: int| 0 <= i < d.len() && (#[trigger] d[i]).0 == key
}

impl View for Document {
    type V = Seq<(Seq<u8>, DocValueModel)>;

    open spec fn view(&self) -> Seq<(Seq<u8>, DocValueModel)> {
        self.entries@.map_values(|e: (Vec<u8>, DocValue)| (e.0@, e.1@))
    }
}

impl Document {
    /// An empty document.
    pub fn new() -> (r: Document)
        ensures
            r@ == Seq::<(Seq<u8>, DocValueModel)>::empty(),
    {
        let r = Document { entries: Vec::new() };
        proof {
            assert(r@ =~= Seq::<(Seq<u8>, DocValueModel)>::empty());
        }
        r
    }

    /// Appends an entry.
    pub fn insert(&mut self, key: Vec<u8>, value: DocValue)
        ensures
            final(self)@ == old(self)@.push((key@, value@)),
    {
        let ghost k = key@;
        let ghost v = value@;
        self.entries.push((key, value));
        proof {
            assert(self@ =~= old(self)@.push((k, v)));
        }
    }

    /// Does the document hold an entry under `key`?
    pub fn has_key(&self, key: &[u8]) -> (r: bool)
        ensures
            r == doc_has_key(self@, key@),
    {
        let mut i: usize = 0;
        while i < self.entries.len()
            invariant
                i <= self@.len() == self.entries@.len(),
                forall|j: int| 0 <= j < i ==> (#[trigger] self@[j]).0 != key@,
            decreases self@.len() - i,
        {
            proof {
                assert(self@[i as int] == (self.entries@[i as int].0@, self.entries@[i as int].1@));
            }
            if bytes_eq(self.entries[i].0.as_slice(), key) {
                return true;
            }
            i += 1;
        }
        false
    }
}

/// The mock database backend.
#[derive(Clone, Copy, PartialEq, Eq, Structural, Debug)]
pub struct MockDb {}

impl MockDb {
    /// Runs a command: the health-check command is answered with an ok
    /// reply, and any other command is refused.
    pub fn run_command(&self, cmd: &Document) -> (r: Result<Document, ContentError>)
        ensures
            doc_has_key(cmd@, lit_ping()) ==> (r matches Ok(d) && d@ == seq![
                (lit_ok(), DocValueModel::Int(1)),
            ]),
            !doc_has_key(cmd@, lit_ping()) ==> (r matches Err(e) && e.kind()
                == ErrorKind::Dependency),
    {
        let ping = lit_ping_vec();
        if cmd.has_key(ping.as_slice()) {
            let mut reply = Document::new();
            reply.insert(crate::literals::lit_ok_vec(), DocValue::Int(1));
            proof {
                assert(reply@ =~= seq![(lit_ok(), DocValueModel::Int(1))]);
            }
            Ok(reply)
        } else {
            Err(ContentError::Dependency("Invalid command".to_owned()))
        }
    }

    /// Connects the mock backend, answering its own health check.
    pub fn init() -> (r: Result<MockDb, ContentError>)
        ensures
            r matches Ok(db) && db == (MockDb {  }),
    {
        let db = MockDb {  };
        let mut cmd = Document::new();
        cmd.insert(lit_ping_vec(), DocValue::Int(1));
        proof {
            assert(cmd@ == Seq::<(Seq<u8>, DocValueModel)>::empty().push(
                (lit_ping(), DocValueModel::Int(1)),
            ));
            assert((cmd@[0]).0 == lit_ping());
            assert(doc_has_key(cmd@, lit_ping()));
        }
        match db.run_command(&cmd) {
            Ok(_) => Ok(db),
            Err(e) => Err(e),
        }
    }
}

} // verus!
