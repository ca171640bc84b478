//! Providers: the organizations that capture, process, license or host the
//! data a grouping offers.

use vstd::prelude::*;

verus! {

/// An organization that influences the data of a grouping.
#[derive(Debug, Clone, PartialEq, Eq)]
pub struct Provider {
    /// The name of the organization or individual.
    pub name: String,
    /// Further information: processing or hosting details, contact data.
    pub description: Option<String>,
    /// Roles of the provider.
    pub roles: Option<Vec<ProviderRole>>,
    /// Homepage describing the dataset and contact information.
    pub url: Option<String>,
}

/// The roles a provider can have.
#[derive(Debug, Clone, PartialEq, Eq)]
pub enum ProviderRole {
    /// Licenses the dataset under the grouping's license.
    Licensor,
    /// Initially captured and processed the source data.
    Producer,
    /// Processed data to a derived product.
    Processor,
    /// Offers the data on its storage; at most one per provider list.
    Host,
}

/// Compares two provider roles.
pub fn role_eq(a: &ProviderRole, b: &ProviderRole) -> (r: bool)
    ensures
        r == (a == b),
{
    match (a, b) {
        (ProviderRole::Licensor, ProviderRole::Licensor) => true,
        (ProviderRole::Producer, ProviderRole::Producer) => true,
        (ProviderRole::Processor, ProviderRole::Processor) => true,
        (ProviderRole::Host, ProviderRole::Host) => true,
        _ => false,
    }
}

/// How many entries of `roles` equal `role`.
pub open spec fn count_role(roles: Seq<ProviderRole>, role: ProviderRole) -> int
    decreases roles.len(),
{
    if roles.len() == 0 {
        0
    } else {
        count_role(roles.take(roles.len() - 1), role) + if roles[roles.len() - 1] == role {
            1int
        } else {
            0int
        }
    }
}

impl Provider {
    /// A new provider with the required name and nothing else set.
    pub fn new(name: String) -> (r: Provider)
        ensures
            r.name == name,
            r.description is None,
            r.roles is None,
            r.url is None,
    {
        Provider { name, description: None, roles: None, url: None }
    }

    /// This provider with the description set.
    pub fn with_description(self, description: String) -> (r: Provider)
        ensures
            r == (Provider { description: Some(description), ..self }),
    {
        Provider { description: Some(description), ..self }
    }

    /// This provider with the roles set.
    pub fn with_roles(self, roles: Vec<ProviderRole>) -> (r: Provider)
        ensures
            r == (Provider { roles: Some(roles), ..self }),
    {
        Provider { roles: Some(roles), ..self }
    }

    /// This provider with the URL set.
    pub fn with_url(self, url: String) -> (r: Provider)
        ensures
            r == (Provider { url: Some(url), ..self }),
    {
        Provider { url: Some(url), ..self }
    }

    /// Adds one role, starting the list when there was none.
    pub fn add_role(&mut self, role: ProviderRole)
        ensures
            final(self).name == old(self).name,
            final(self).description == old(self).description,
            final(self).url == old(self).url,
            final(self).roles is Some,
            old(self).roles is Some ==> final(self).roles->Some_0@ == old(
                self,
            ).roles->Some_0@.push(role),
            old(self).roles is None ==> final(self).roles->Some_0@ == seq![role],
    {
        match self.roles.take() {
            Some(mut roles) => {
                roles.push(role);
                self.roles = Some(roles);
            },
            None => {
                let mut roles: Vec<ProviderRole> = Vec::new();
                roles.push(role);
                proof {
                    assert(roles@ =~= seq![role]);
                }
                self.roles = Some(roles);
            },
        }
    }

    /// Whether the provider has the given role.
    pub fn has_role(&self, role: &ProviderRole) -> (r: bool)
        ensures
            r == (self.roles is Some && self.roles->Some_0@.contains(*role)),
    {
        match &self.roles {
            Some(roles) => {
                let n = roles.len();
                let mut i: usize = 0;
                while i < n
                    invariant
                        i <= n,
                        n == roles@.len(),
                        self.roles == Some(*roles),
                        forall|j: int| 0 <= j < i ==> roles@[j] != *role,
                    decreases n - i,
                {
                    if role_eq(&roles[i], role) {
                        proof {
                            assert(roles@.contains(*role)) by {
                                assert(roles@[i as int] == *role);
                            }
                        }
                        return true;
                    }
                    i = i + 1;
                }
                false
            },
            None => false,
        }
    }

    /// Whether the provider is a licensor.
    pub fn is_licensor(&self) -> (r: bool)
        ensures
            r == (self.roles is Some && self.roles->Some_0@.contains(ProviderRole::Licensor)),
    {
        self.has_role(&ProviderRole::Licensor)
    }

    /// Whether the provider is a producer.
    pub fn is_producer(&self) -> (r: bool)
        ensures
            r == (self.roles is Some && self.roles->Some_0@.contains(ProviderRole::Producer)),
    {
        self.has_role(&ProviderRole::Producer)
    }

    /// Whether the provider is a processor.
    pub fn is_processor(&self) -> (r: bool)
        ensures
            r == (self.roles is Some && self.roles->Some_0@.contains(ProviderRole::Processor)),
    {
        self.has_role(&ProviderRole::Processor)
    }

    /// Whether the provider is a host.
    pub fn is_host(&self) -> (r: bool)
        ensures
            r == (self.roles is Some && self.roles->Some_0@.contains(ProviderRole::Host)),
    {
        self.has_role(&ProviderRole::Host)
    }

    /// Whether the provider carries at most one host role, as the rules for
    /// provider lists ask.
    pub fn is_valid(&self) -> (r: bool)
        ensures
            r == (self.roles is None || count_role(self.roles->Some_0@, ProviderRole::Host) <= 1),
    {
        match &self.roles {
            Some(roles) => {
                let n = roles.len();
                let mut count: usize = 0;
                let mut i: usize = 0;
                while i < n
                    invariant
                        i <= n,
                        n == roles@.len(),
                        count == count_role(roles@.take(i as int), ProviderRole::Host),
                        count <= i,
                    decreases n - i,
                {
                    proof {
                        assert(roles@.take(i + 1).take(i as int) =~= roles@.take(i as int));
                        assert(roles@.take(i + 1)[i as int] == roles@[i as int]);
                    }
                    if role_eq(&roles[i], &ProviderRole::Host) {
                        count = count + 1;
                    }
                    i = i + 1;
                }
                proof {
                    assert(roles@.take(n as int) =~= roles@);
                }
                count <= 1
            },
            None => true,
        }
    }

    /// A licensor provider, with the URL when one is given.
    pub fn licensor(name: String, license_url: Option<String>) -> (r: Provider)
        ensures
            r.name == name,
            r.description is None,
            r.roles is Some && r.roles->Some_0@ == seq![ProviderRole::Licensor],
            r.url == license_url,
    {
        let mut provider = Provider::new(name);
        provider.add_role(ProviderRole::Licensor);
        if let Some(url) = license_url {
            provider.url = Some(url);
        }
        provider
    }

    /// A producer provider, with description and URL when given.
    pub fn producer(name: String, description: Option<String>, url: Option<String>) -> (r:
        Provider)
        ensures
            r.name == name,
            r.description == description,
            r.roles is Some && r.roles->Some_0@ == seq![ProviderRole::Producer],
            r.url == url,
    {
        let mut provider = Provider::new(name);
        provider.add_role(ProviderRole::Producer);
        if let Some(desc) = description {
            provider.description = Some(desc);
        }
        if let Some(u) = url {
            provider.url = Some(u);
        }
        provider
    }

    /// A processor provider, with description and URL when given.
    pub fn processor(name: String, description: Option<String>, url: Option<String>) -> (r:
        Provider)
        ensures
            r.name == name,
            r.description == description,
            r.roles is Some && r.roles->Some_0@ == seq![ProviderRole::Processor],
            r.url == url,
    {
        let mut provider = Provider::new(name);
        provider.add_role(ProviderRole::Processor);
        if let Some(desc) = description {
            provider.description = Some(desc);
        }
        if let Some(u) = url {
            provider.url = Some(u);
        }
        provider
    }

    /// A host provider, with description and URL when given. A provider list
    /// should hold no more than one host.
    pub fn host(name: String, description: Option<String>, url: Option<String>) -> (r: Provider)
        ensures
            r.name == name,
            r.description == description,
            r.roles is Some && r.roles->Some_0@ == seq![ProviderRole::Host],
            r.url == url,
    {
        let mut provider = Provider::new(name);
        provider.add_role(ProviderRole::Host);
        if let Some(desc) = description {
            provider.description = Some(desc);
        }
        if let Some(u) = url {
            provider.url = Some(u);
        }
        provider
    }

    /// A provider with the given roles.
    pub fn multi_role(name: String, roles: Vec<ProviderRole>) -> (r: Provider)
        ensures
            r.name == name,
            r.description is None,
            r.roles == Some(roles),
            r.url is None,
    {
        let mut provider = Provider::new(name);
        provider.roles = Some(roles);
        provider
    }

    /// The first role in the list, when there is one.
    pub fn primary_role(&self) -> (r: Option<&ProviderRole>)
        ensures
            (r is Some) <==> (self.roles is Some && self.roles->Some_0@.len() > 0),
            r is Some ==> *r->Some_0 == self.roles->Some_0@[0],
    {
        match &self.roles {
            Some(roles) => {
                if roles.len() > 0 {
                    Some(&roles[0])
                } else {
                    None
                }
            },
            None => None,
        }
    }

    /// All roles, as a slice, when a list exists.
    pub fn get_roles(&self) -> (r: Option<&[ProviderRole]>)
        ensures
            (r is Some) <==> (self.roles is Some),
            r is Some ==> r->Some_0@ == self.roles->Some_0@,
    {
        match &self.roles {
            Some(roles) => Some(roles.as_slice()),
            None => None,
        }
    }
}

} // verus!
