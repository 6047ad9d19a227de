use vstd::prelude::*;
use crate::text::string_views;

verus! {

/// What is known of an installed package.
#[derive(Debug, Clone)]
pub struct PackageInfo {
    /// The package name.
    pub package_name: String,
    /// The version as shown to users.
    pub version_name: Option<String>,
    /// The internal version number.
    pub version_code: Option<i32>,
    /// When the package was first installed.
    pub install_time: Option<String>,
    /// When the package was last updated.
    pub update_time: Option<String>,
    /// The user id the package runs as.
    pub uid: Option<i32>,
    /// The platform level the package targets.
    pub target_sdk: Option<i32>,
    /// The lowest platform level the package runs on.
    pub min_sdk: Option<i32>,
    /// Package flags.
    pub flags: Vec<String>,
    /// Requested permissions.
    pub permissions: Vec<String>,
    /// Declared activities.
    pub activities: Vec<String>,
    /// Declared services.
    pub services: Vec<String>,
    /// The package that installed it.
    pub install_source: Option<String>,
    /// The full report the details were read from.
    pub raw_data: Option<String>,
}

/// Whether `a` and `b` agree on every field but the one numbered `skip`, in
/// declaration order from 0 (`package_name`) to 13 (`raw_data`).
pub open spec fn same_fields_but(a: PackageInfo, b: PackageInfo, skip: int) -> bool {
    &&& (skip == 0 || a.package_name == b.package_name)
    &&& (skip == 1 || a.version_name == b.version_name)
    &&& (skip == 2 || a.version_code == b.version_code)
    &&& (skip == 3 || a.install_time == b.install_time)
    &&& (skip == 4 || a.update_time == b.update_time)
    &&& (skip == 5 || a.uid == b.uid)
    &&& (skip == 6 || a.target_sdk == b.target_sdk)
    &&& (skip == 7 || a.min_sdk == b.min_sdk)
    &&& (skip == 8 || a.flags == b.flags)
    &&& (skip == 9 || a.permissions == b.permissions)
    &&& (skip == 10 || a.activities == b.activities)
    &&& (skip == 11 || a.services == b.services)
    &&& (skip == 12 || a.install_source == b.install_source)
    &&& (skip == 13 || a.raw_data == b.raw_data)
}

/// Whether `p` holds `name` and nothing else.
pub open spec fn is_bare_package(p: PackageInfo, name: Seq<char>) -> bool {
    &&& p.package_name@ == name
    &&& p.version_name is None && p.version_code is None
    &&& p.install_time is None && p.update_time is None
    &&& p.uid is None && p.target_sdk is None && p.min_sdk is None
    &&& p.flags@.len() == 0 && p.permissions@.len() == 0
    &&& p.activities@.len() == 0 && p.services@.len() == 0
    &&& p.install_source is None && p.raw_data is None
}

impl PackageInfo {
    /// A package known by its name alone.
    pub fn new(package_name: &str) -> (r: PackageInfo)
        ensures
            is_bare_package(r, package_name@),
    {
        PackageInfo {
            package_name: package_name.to_owned(),
            version_name: None,
            version_code: None,
            install_time: None,
            update_time: None,
            uid: None,
            target_sdk: None,
            min_sdk: None,
            flags: Vec::new(),
            permissions: Vec::new(),
            activities: Vec::new(),
            services: Vec::new(),
            install_source: None,
            raw_data: None,
        }
    }

    /// A builder that starts from a package known by its name alone.
    pub fn builder(package_name: &str) -> (r: PackageInfoBuilder)
        ensures
            is_bare_package(r.staged(), package_name@),
    {
        PackageInfoBuilder::new(package_name)
    }
}

/// Builds a `PackageInfo` one detail at a time.
#[derive(Debug)]
pub struct PackageInfoBuilder {
    info: PackageInfo,
}

impl PackageInfoBuilder {
    /// The package as built so far.
    pub closed spec fn staged(&self) -> PackageInfo {
        self.info
    }

    /// A builder that starts from a package known by its name alone.
    pub fn new(package_name: &str) -> (r: PackageInfoBuilder)
        ensures
            is_bare_package(r.staged(), package_name@),
    {
        PackageInfoBuilder { info: PackageInfo::new(package_name) }
    }


    /// Sets the version shown to users.
    pub fn with_version_name(self, version: &str) -> (r: PackageInfoBuilder)
        ensures
            r.staged().version_name is Some && r.staged().version_name->0@ == version@,
            same_fields_but(r.staged(), self.staged(), 1),
    {
        let mut b = self;
        b.info.version_name = Some(version.to_owned());
        b
    }


    /// Sets the internal version number.
    pub fn with_version_code(self, code: i32) -> (r: PackageInfoBuilder)
        ensures
            r.staged().version_code == Some(code),
            same_fields_but(r.staged(), self.staged(), 2),
    {
        let mut b = self;
        b.info.version_code = Some(code);
        b
    }


    /// Sets when the package was first installed.
    pub fn with_install_time(self, time: &str) -> (r: PackageInfoBuilder)
        ensures
            r.staged().install_time is Some && r.staged().install_time->0@ == time@,
            same_fields_but(r.staged(), self.staged(), 3),
    {
        let mut b = self;
        b.info.install_time = Some(time.to_owned());
        b
    }


    /// Sets when the package was last updated.
    pub fn with_update_time(self, time: &str) -> (r: PackageInfoBuilder)
        ensures
            r.staged().update_time is Some && r.staged().update_time->0@ == time@,
            same_fields_but(r.staged(), self.staged(), 4),
    {
        let mut b = self;
        b.info.update_time = Some(time.to_owned());
        b
    }


    /// Sets the user id.
    pub fn with_uid(self, uid: i32) -> (r: PackageInfoBuilder)
        ensures
            r.staged().uid == Some(uid),
            same_fields_but(r.staged(), self.staged(), 5),
    {
        let mut b = self;
        b.info.uid = Some(uid);
        b
    }


    /// Sets the targeted platform level.
    pub fn with_target_sdk(self, sdk: i32) -> (r: PackageInfoBuilder)
        ensures
            r.staged().target_sdk == Some(sdk),
            same_fields_but(r.staged(), self.staged(), 6),
    {
        let mut b = self;
        b.info.target_sdk = Some(sdk);
        b
    }


    /// Sets the lowest supported platform level.
    pub fn with_min_sdk(self, sdk: i32) -> (r: PackageInfoBuilder)
        ensures
            r.staged().min_sdk == Some(sdk),
            same_fields_but(r.staged(), self.staged(), 7),
    {
        let mut b = self;
        b.info.min_sdk = Some(sdk);
        b
    }


    /// Appends a flag.
    pub fn add_flag(self, flag: &str) -> (r: PackageInfoBuilder)
        ensures
            string_views(r.staged().flags@) == string_views(self.staged().flags@).push(flag@),
            same_fields_but(r.staged(), self.staged(), 8),
    {
        let mut b = self;
        let ghost before = b.info.flags@;
        b.info.flags.push(flag.to_owned());
        assert(string_views(b.info.flags@) =~= string_views(before).push(flag@));
        b
    }


    /// Appends a requested permission.
    pub fn add_permission(self, permission: &str) -> (r: PackageInfoBuilder)
        ensures
            string_views(r.staged().permissions@) == string_views(self.staged().permissions@).push(permission@),
            same_fields_but(r.staged(), self.staged(), 9),
    {
        let mut b = self;
        let ghost before = b.info.permissions@;
        b.info.permissions.push(permission.to_owned());
        assert(string_views(b.info.permissions@) =~= string_views(before).push(permission@));
        b
    }


    /// Appends a declared activity.
    pub fn add_activity(self, activity: &str) -> (r: PackageInfoBuilder)
        ensures
            string_views(r.staged().activities@) == string_views(self.staged().activities@).push(activity@),
            same_fields_but(r.staged(), self.staged(), 10),
    {
        let mut b = self;
        let ghost before = b.info.activities@;
        b.info.activities.push(activity.to_owned());
        assert(string_views(b.info.activities@) =~= string_views(before).push(activity@));
        b
    }


    /// Appends a declared service.
    pub fn add_service(self, service: &str) -> (r: PackageInfoBuilder)
        ensures
            string_views(r.staged().services@) == string_views(self.staged().services@).push(service@),
            same_fields_but(r.staged(), self.staged(), 11),
    {
        let mut b = self;
        let ghost before = b.info.services@;
        b.info.services.push(service.to_owned());
        assert(string_views(b.info.services@) =~= string_views(before).push(service@));
        b
    }


    /// Sets the installing package.
    pub fn with_install_source(self, source: &str) -> (r: PackageInfoBuilder)
        ensures
            r.staged().install_source is Some && r.staged().install_source->0@ == source@,
            same_fields_but(r.staged(), self.staged(), 12),
    {
        let mut b = self;
        b.info.install_source = Some(source.to_owned());
        b
    }


    /// Sets the full report the details were read from.
    pub fn with_raw_data(self, data: &str) -> (r: PackageInfoBuilder)
        ensures
            r.staged().raw_data is Some && r.staged().raw_data->0@ == data@,
            same_fields_but(r.staged(), self.staged(), 13),
    {
        let mut b = self;
        b.info.raw_data = Some(data.to_owned());
        b
    }


    /// The package as built.
    pub fn build(self) -> (r: PackageInfo)
        ensures
            r == self.staged(),
    {
        self.info
    }
}

} // verus!
