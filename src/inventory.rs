use vstd::prelude::*;
use vstd::string::*;

verus! {

/// What an inventory client is bound to: the four values it authenticates
/// and addresses its requests with.
pub struct InventoryView {
    pub base_url: Seq<char>,
    pub tenant: Seq<char>,
    pub username: Seq<char>,
    pub password: Seq<char>,
}

/// Client handle of the platform's inventory API for one tenant.
pub struct Inventory {
    pub base_url: String,
    pub tenant: String,
    pub username: String,
    pub password: String,
}

impl View for Inventory {
    type V = InventoryView;

    open spec fn view(&self) -> InventoryView {
        InventoryView {
            base_url: self.base_url@,
            tenant: self.tenant@,
            username: self.username@,
            password: self.password@,
        }
    }
}

/// The user name of platform Basic authentication: `{tenant}/{user}`.
pub open spec fn qualified_user(tenant: Seq<char>, user: Seq<char>) -> Seq<char> {
    tenant + seq!['/'] + user
}

/// The address of the inventory's collection of managed objects.
pub open spec fn managed_objects_url_of(base_url: Seq<char>) -> Seq<char> {
    base_url + "/inventory/managedObjects"@
}

/// The address of one managed object.
pub open spec fn managed_object_url_of(base_url: Seq<char>, id: Seq<char>) -> Seq<char> {
    managed_objects_url_of(base_url) + seq!['/'] + id
}

/// Copies a string value.
pub fn copy_string(s: &String) -> (r: String)
    ensures
        r@ == s@,
{
    String::from_str(s.as_str())
}

impl Inventory {
    pub fn new(base_url: &String, tenant: &String, username: &String, password: &String) -> (r: Inventory)
        ensures
            r.base_url@ == base_url@,
            r.tenant@ == tenant@,
            r.username@ == username@,
            r.password@ == password@,
    {
        Inventory {
            base_url: copy_string(base_url),
            tenant: copy_string(tenant),
            username: copy_string(username),
            password: copy_string(password),
        }
    }

    /// A copy of this handle, bound to the same values.
    pub fn duplicate(&self) -> (r: Inventory)
        ensures
            r@ == self@,
    {
        Inventory::new(&self.base_url, &self.tenant, &self.username, &self.password)
    }

    /// The user name that requests of this client authenticate with.
    pub fn auth_user(&self) -> (r: String)
        ensures
            r@ == qualified_user(self.tenant@, self.username@),
    {
        proof {
            reveal_strlit("/");
        }
        let r = copy_string(&self.tenant).concat("/").concat(self.username.as_str());
        r
    }

    /// The address that creations are posted to.
    pub fn managed_objects_url(&self) -> (r: String)
        ensures
            r@ == managed_objects_url_of(self.base_url@),
    {
        copy_string(&self.base_url).concat("/inventory/managedObjects")
    }

    /// The address that reads, updates and deletions of object `id` go to.
    pub fn managed_object_url(&self, id: &str) -> (r: String)
        ensures
            r@ == managed_object_url_of(self.base_url@, id@),
    {
        proof {
            reveal_strlit("/");
        }
        self.managed_objects_url().concat("/").concat(id)
    }
}

} // verus!
