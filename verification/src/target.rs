//! The destination of a request: an application in a namespace, named by the
//! host of the request as `<application>.<namespace>`.
use vstd::prelude::*;
use vstd::string::StrSliceExecFns;
use vstd::string::StringExecFns;

verus! {

/// Whether `host` names a target with its only dot at index `dot`: exactly
/// one dot, with at least one character on each side of it.
pub open spec fn splits_at(host: Seq<char>, dot: int) -> bool {
    &&& 0 < dot < host.len() - 1
    &&& host[dot] == '.'
    &&& forall|j: int| 0 <= j < host.len() && j != dot ==> host[j] != '.'
}

/// Whether `host` names a target.
pub open spec fn is_well_formed(host: Seq<char>) -> bool {
    exists|dot: int| splits_at(host, dot)
}

/// A host that could not be read as `<application>.<namespace>`.
#[derive(Debug)]
pub struct MalformedTarget;

/// An application in a namespace.
#[derive(Debug)]
pub struct Target {
    application_name: String,
    namespace: String,
}

impl Target {
    pub closed spec fn spec_application_name(&self) -> Seq<char> {
        self.application_name@
    }

    pub closed spec fn spec_namespace(&self) -> Seq<char> {
        self.namespace@
    }

    /// The host that names this target.
    pub open spec fn spec_key(&self) -> Seq<char> {
        self.spec_application_name() + seq!['.'] + self.spec_namespace()
    }

    /// Reads a host as a target. The host must consist of two parts with a
    /// dot between them, both of at least one character and without a dot.
    pub fn parse(host: &str) -> (parsed: Result<Target, MalformedTarget>)
        ensures
            match parsed {
                Ok(target) => exists|dot: int|
                    {
                        &&& splits_at(host@, dot)
                        &&& target.spec_application_name() == host@.take(dot)
                        &&& target.spec_namespace() == host@.skip(dot + 1)
                    },
                Err(_) => !is_well_formed(host@),
            },
            parsed matches Ok(target) ==> target.spec_key() == host@,
    {
        let len = host.unicode_len();
        let mut dot: Option<usize> = None;
        let mut i: usize = 0;
        while i < len
            invariant
                len == host@.len(),
                i <= len,
                match dot {
                    Some(d) => d < i && host@[d as int] == '.' && forall|j: int|
                        0 <= j < i && j != d ==> host@[j] != '.',
                    None => forall|j: int| 0 <= j < i ==> host@[j] != '.',
                },
            decreases len - i,
        {
            if host.get_char(i) == '.' {
                match dot {
                    Some(d) => {
                        assert forall|at: int| !splits_at(host@, at) by {}
                        return Err(MalformedTarget);
                    },
                    None => {
                        dot = Some(i);
                    },
                }
            }
            i = i + 1;
        }
        match dot {
            Some(d) => {
                if d == 0 || d + 1 >= len {
                    assert forall|at: int| !splits_at(host@, at) by {}
                    return Err(MalformedTarget);
                }
                let application_name = String::from_str(host.substring_char(0, d));
                let namespace = String::from_str(host.substring_char(d + 1, len));
                assert(splits_at(host@, d as int));
                Ok(Target { application_name, namespace })
            },
            None => Err(MalformedTarget),
        }
    }

    /// The application's name.
    pub fn application_name(&self) -> (name: &str)
        ensures
            name@ == self.spec_application_name(),
    {
        self.application_name.as_str()
    }

    /// The namespace in which the application runs.
    pub fn namespace(&self) -> (name: &str)
        ensures
            name@ == self.spec_namespace(),
    {
        self.namespace.as_str()
    }

    /// The host that names this target: `<application>.<namespace>`.
    pub fn key(&self) -> (key: String)
        ensures
            key@ == self.spec_key(),
    {
        let mut key = self.application_name.clone();
        proof {
            reveal_strlit(".");
        }
        key.append(".");
        key.append(self.namespace.as_str());
        key
    }

    /// The label selector that finds the pods of the application:
    /// `app=<application>`.
    pub fn label_selector(&self) -> (selector: String)
        ensures
            selector@ == "app="@ + self.spec_application_name(),
    {
        let mut selector = String::from_str("app=");
        selector.append(self.application_name.as_str());
        selector
    }
}

} // verus!
