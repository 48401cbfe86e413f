//! Names and labels for the operator's own packaging.
//!
//! The objects themselves (Deployment, Role, RoleBinding, ServiceAccount)
//! are assembled by the I/O shell from these values.

use vstd::prelude::*;
use vstd::string::*;
use crate::operator::controller::UpdateStrategy;
use crate::string_map::StringMap;

verus! {

#[verifier::ext_equal]
pub struct DeploymentBuilderView {
    pub app_name: Seq<char>,
    pub namespace: Seq<char>,
    pub image: Seq<char>,
    pub update_strategy: UpdateStrategy,
}

/// What the operator's own Deployment is built from.
#[derive(Debug, Clone, PartialEq, Eq)]
pub struct DeploymentBuilder {
    app_name: String,
    namespace: String,
    image: String,
    update_strategy: UpdateStrategy,
}

impl View for DeploymentBuilder {
    type V = DeploymentBuilderView;

    closed spec fn view(&self) -> DeploymentBuilderView {
        DeploymentBuilderView {
            app_name: self.app_name@,
            namespace: self.namespace@,
            image: self.image@,
            update_strategy: self.update_strategy,
        }
    }
}

impl DeploymentBuilder {
    pub fn new(
        app_name: String,
        namespace: String,
        image: String,
        update_strategy: UpdateStrategy,
    ) -> (r: DeploymentBuilder)
        ensures
            r@ == (DeploymentBuilderView {
                app_name: app_name@,
                namespace: namespace@,
                image: image@,
                update_strategy,
            }),
    {
        let r = DeploymentBuilder { app_name, namespace, image, update_strategy };
        proof {
            assert(r@ =~= (DeploymentBuilderView {
                app_name: r.app_name@,
                namespace: r.namespace@,
                image: r.image@,
                update_strategy: r.update_strategy,
            }));
        }
        r
    }

    pub fn to_labels(&self) -> (r: StringMap)
        ensures
            r@ == crate::string_map::sm_insert(
                Seq::<(Seq<char>, Seq<char>)>::empty(),
                "app"@,
                self@.app_name,
            ),
            r.wf(),
    {
        let mut m = StringMap::new();
        m.insert("app".to_owned(), self.to_app_name());
        m
    }

    pub fn to_deployment_name(&self) -> (r: String)
        ensures
            r@ == self@.app_name,
    {
        self.app_name.clone()
    }

    pub fn to_app_name(&self) -> (r: String)
        ensures
            r@ == self@.app_name,
    {
        self.app_name.clone()
    }

    pub fn to_namespace(&self) -> (r: String)
        ensures
            r@ == self@.namespace,
    {
        self.namespace.clone()
    }

    pub fn to_image(&self) -> (r: String)
        ensures
            r@ == self@.image,
    {
        self.image.clone()
    }

    pub fn to_update_strategy(&self) -> (r: UpdateStrategy)
        ensures
            r == self@.update_strategy,
    {
        self.update_strategy
    }

    pub fn to_service_account_name(&self) -> (r: String)
        ensures
            r@ == self@.app_name,
    {
        self.app_name.clone()
    }

    pub fn to_role_name(&self) -> (r: String)
        ensures
            r@ == self@.app_name + "-role"@,
    {
        self.app_name.clone().concat("-role")
    }

    pub fn to_role_binding_name(&self) -> (r: String)
        ensures
            r@ == self@.app_name + "-rolebinding"@,
    {
        self.app_name.clone().concat("-rolebinding")
    }
}

} // verus!
