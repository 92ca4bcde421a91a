use vstd::prelude::*;

verus! {

/// How a kind of resource handle is told apart from the null handle and
/// released.
pub trait ResourceDeleter {
    type Handle;

    /// The handle is the null handle, which owns nothing.
    spec fn spec_is_null(res: &Self::Handle) -> bool;

    fn is_null(res: &Self::Handle) -> (b: bool)
        ensures
            b == Self::spec_is_null(res),
    ;

    fn null() -> (h: Self::Handle)
        ensures
            Self::spec_is_null(&h),
    ;

    /// Releases the resource.
    fn delete(&mut self, res: &mut Self::Handle)
    ;
}

/// Sole owner of a resource that is not null; `release` hands the resource
/// to its deleter.
pub struct UniqueResource<T: ResourceDeleter> {
    handle: <T as ResourceDeleter>::Handle,
    deleter: T,
}

impl<T: ResourceDeleter> UniqueResource<T> {
    /// The owned handle.
    pub closed spec fn handle_view(&self) -> <T as ResourceDeleter>::Handle {
        self.handle
    }

    /// The deleter that will release the handle.
    pub closed spec fn deleter_view(&self) -> T {
        self.deleter
    }

    /// Takes ownership of `handle`, to be released by a default deleter;
    /// `None` for the null handle.
    pub fn from_handle(handle: <T as ResourceDeleter>::Handle) -> (r: Option<Self>)
        where
            T: core::default::Default,
        ensures
            r is None <==> T::spec_is_null(&handle),
            r matches Some(u) ==> u.handle_view() == handle,
    {
        Self::from_state_handle(handle, T::default())
    }

    /// Takes ownership of `handle`, to be released by `deleter`; `None` for
    /// the null handle.
    pub fn from_state_handle(handle: <T as ResourceDeleter>::Handle, deleter: T) -> (r: Option<Self>)
        ensures
            r is None <==> T::spec_is_null(&handle),
            r matches Some(u) ==> u.handle_view() == handle && u.deleter_view() == deleter,
    {
        if T::is_null(&handle) {
            None
        } else {
            Some(UniqueResource { handle, deleter })
        }
    }

    /// Releases the resource through the deleter.
    pub fn release(self) {
        let mut res = self;
        if !T::is_null(&res.handle) {
            res.deleter.delete(&mut res.handle);
        }
    }

    /// The owned handle.
    pub fn handle(&self) -> (h: &<T as ResourceDeleter>::Handle)
        ensures
            *h == self.handle_view(),
    {
        &self.handle
    }
}

} // verus!
