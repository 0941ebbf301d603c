//! The context shared by the whole box: its settings and the services that
//! adapters have started.

use crate::strmap::StrMap;
use vstd::prelude::*;

verus! {

/// The identifier of a service.
pub type ServiceID = String;

/// What a service tells about itself.
pub struct ServiceProperties {
    pub id: ServiceID,
}

/// A service that an adapter provides.
pub trait Service {
    /// The properties of the service, its id among them.
    fn get_properties(&self) -> ServiceProperties;
}

/// `p` is a value that `get_properties` can return for `service`.
pub open spec fn gives_properties<S: Service>(service: S, p: ServiceProperties) -> bool {
    call_ensures(S::get_properties, (&service,), p)
}

/// The global context available to all.
#[verifier::reject_recursive_types(S)]
pub struct Context<S> {
    pub verbose: bool,
    pub hostname: String,
    pub http_port: u16,
    pub services: StrMap<S>,
}

impl<S> Context<S> {
    /// The services, by id.
    pub closed spec fn services(&self) -> Map<Seq<char>, S> {
        self.services@
    }

    /// Well-formedness of the context.
    pub closed spec fn wf(&self) -> bool {
        self.services.wf()
    }

    /// A context with no service, on port 3000, named `hostname` or else
    /// `localhost`.
    pub fn new(verbose: bool, hostname: Option<String>) -> (c: Self)
        ensures
            c.wf(),
            c.verbose == verbose,
            c.hostname@ == match hostname {
                Some(h) => h@,
                None => "localhost"@,
            },
            c.http_port == 3000,
            c.services() == Map::<Seq<char>, S>::empty(),
    {
        let hostname = match hostname {
            Some(h) => h,
            None => "localhost".to_owned(),
        };
        Context { services: StrMap::new(), verbose, hostname, http_port: 3000 }
    }

    /// Adds `service` under the id that its `get_properties` gives; a service
    /// with that id is replaced.
    pub fn add_service(&mut self, service: S) where S: Service
        requires
            old(self).wf(),
        ensures
            final(self).wf(),
            exists|p: ServiceProperties|
                #[trigger] gives_properties(service, p) && final(self).services() == old(self).services().insert(
                    p.id@,
                    service,
                ),
            final(self).verbose == old(self).verbose,
            final(self).hostname == old(self).hostname,
            final(self).http_port == old(self).http_port,
    {
        let properties = service.get_properties();
        assert(gives_properties(service, properties));
        self.services.insert(properties.id, service);
    }

    /// Removes the service `id`, if there is one.
    pub fn remove_service(&mut self, id: String)
        requires
            old(self).wf(),
        ensures
            final(self).wf(),
            final(self).services() == old(self).services().remove(id@),
            final(self).verbose == old(self).verbose,
            final(self).hostname == old(self).hostname,
            final(self).http_port == old(self).http_port,
    {
        self.services.remove(id.as_str());
    }

    /// The number of services.
    pub fn services_count(&self) -> (n: usize)
        requires
            self.wf(),
        ensures
            n == self.services().len(),
    {
        self.services.len()
    }

    /// The service `id`, if there is one.
    pub fn get_service(&self, id: &str) -> (r: Option<&S>)
        requires
            self.wf(),
        ensures
            match r {
                Some(s) => self.services().contains_key(id@) && *s == self.services()[id@],
                None => !self.services().contains_key(id@),
            },
    {
        self.services.get(id)
    }
}

} // verus!
