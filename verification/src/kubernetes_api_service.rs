//! Entries for a hosts file: one line for each service of a namespace, which
//! makes the host that names the service resolve to this machine.
use vstd::prelude::*;
use vstd::string::StringExecFns;

verus! {

/// The entry for a service: the local address, then the host that names the
/// service in its namespace.
pub open spec fn spec_hosts_entry(service: Seq<char>, namespace: Seq<char>) -> Seq<char> {
    "127.0.0.1 "@ + service + "."@ + namespace
}

/// Writes the hosts entries of the services of a namespace.
pub struct ApiService;

impl ApiService {
    pub fn new() -> ApiService {
        ApiService
    }

    /// The entry for one service of `namespace`.
    pub fn hosts_entry(&self, service: &str, namespace: &str) -> (entry: String)
        ensures
            entry@ == spec_hosts_entry(service@, namespace@),
    {
        let mut entry = String::from_str("127.0.0.1 ");
        entry.append(service);
        entry.append(".");
        entry.append(namespace);
        entry
    }

    /// The entries to print for the services of `namespace`, one for each
    /// name in `services` and in their order.
    pub fn print_hosts_entries_for_namespace(&self, services: &Vec<String>, namespace: &str) -> (entries:
        Vec<String>)
        ensures
            entries@.len() == services@.len(),
            forall|i: int|
                0 <= i < services@.len() ==> (#[trigger] entries@[i])@ == spec_hosts_entry(
                    services@[i]@,
                    namespace@,
                ),
    {
        let count = services.len();
        let mut entries: Vec<String> = Vec::new();
        let mut i: usize = 0;
        while i < count
            invariant
                count == services@.len(),
                i <= count,
                entries@.len() == i,
                forall|j: int|
                    0 <= j < i ==> (#[trigger] entries@[j])@ == spec_hosts_entry(
                        services@[j]@,
                        namespace@,
                    ),
            decreases count - i,
        {
            let entry = self.hosts_entry(services[i].as_str(), namespace);
            entries.push(entry);
            i = i + 1;
        }
        entries
    }
}

} // verus!
