//! C++-style references. Such a reference is never dereferenced on the Rust
//! side: it only carries the address of its referent back into C++. Here an
//! address is held as a plain `usize`.

use core::marker::PhantomData;
use vstd::prelude::*;

verus! {

/// A C++ const reference: the address of an object of type `T`, which may be
/// zero, and which may be mutated elsewhere while the reference exists.
pub struct CppRef<T: ?Sized> {
    addr: usize,
    marker: PhantomData<T>,
}

impl<T: ?Sized> CppRef<T> {
    /// The address that this reference carries.
    pub closed spec fn addr(&self) -> usize {
        self.addr
    }

    /// Retrieve the underlying C++ pointer, as an address.
    pub fn as_ptr(&self) -> (r: usize)
        ensures
            r == self.addr(),
    {
        self.addr
    }

    /// Create a C++ reference from a raw address.
    pub fn from_ptr(ptr: usize) -> (r: Self)
        ensures
            r.addr() == ptr,
    {
        CppRef { addr: ptr, marker: PhantomData }
    }

    /// A mutable reference to the same referent, like C++ `const_cast`.
    pub fn const_cast(&self) -> (r: CppMutRef<T>)
        ensures
            r.addr() == self.addr(),
    {
        CppMutRef { addr: self.addr, marker: PhantomData }
    }
}

impl<T: ?Sized> Clone for CppRef<T> {
    fn clone(&self) -> (r: Self)
        ensures
            r.addr() == self.addr(),
    {
        CppRef { addr: self.addr, marker: PhantomData }
    }
}

/// A [`CppRef`] tied to the lifetime `'a` of what it was obtained from.
pub struct CppLtRef<'a, T: ?Sized> {
    ptr: CppRef<T>,
    phantom: PhantomData<&'a T>,
}

impl<'a, T: ?Sized> CppLtRef<'a, T> {
    /// The address that this reference carries.
    pub closed spec fn addr(&self) -> usize {
        self.ptr.addr()
    }

    /// A reference to the same referent that is no longer tied to `'a`.
    pub fn lifetime_cast(&self) -> (r: CppRef<T>)
        ensures
            r.addr() == self.addr(),
    {
        CppRef::from_ptr(self.ptr.as_ptr())
    }

    /// Create a C++ reference from a raw address.
    pub fn from_ptr(ptr: usize) -> (r: Self)
        ensures
            r.addr() == ptr,
    {
        CppLtRef { ptr: CppRef::from_ptr(ptr), phantom: PhantomData }
    }

}

impl<'a, T: ?Sized> core::ops::Deref for CppLtRef<'a, T> {
    type Target = CppRef<T>;

    fn deref(&self) -> (r: &CppRef<T>)
        ensures
            r.addr() == self.addr(),
    {
        &self.ptr
    }
}

/// A C++ non-const reference. Unlike Rust's `&mut T`, several of them may
/// refer to the same object.
pub struct CppMutRef<T: ?Sized> {
    addr: usize,
    marker: PhantomData<T>,
}

impl<T: ?Sized> CppMutRef<T> {
    /// The address that this reference carries.
    pub closed spec fn addr(&self) -> usize {
        self.addr
    }

    /// Retrieve the underlying C++ pointer, as an address.
    pub fn as_mut_ptr(&self) -> (r: usize)
        ensures
            r == self.addr(),
    {
        self.addr
    }

    /// Create a C++ reference from a raw address.
    pub fn from_ptr(ptr: usize) -> (r: Self)
        ensures
            r.addr() == ptr,
    {
        CppMutRef { addr: ptr, marker: PhantomData }
    }
}

impl<T: ?Sized> Clone for CppMutRef<T> {
    fn clone(&self) -> (r: Self)
        ensures
            r.addr() == self.addr(),
    {
        CppMutRef { addr: self.addr, marker: PhantomData }
    }
}

/// A [`CppMutRef`] tied to the lifetime `'a` of what it was obtained from.
pub struct CppMutLtRef<'a, T: ?Sized> {
    ptr: CppMutRef<T>,
    phantom: PhantomData<&'a mut T>,
}

impl<'a, T: ?Sized> CppMutLtRef<'a, T> {
    /// The address that this reference carries.
    pub closed spec fn addr(&self) -> usize {
        self.ptr.addr()
    }

    /// A reference to the same referent that is no longer tied to `'a`.
    pub fn lifetime_cast(&mut self) -> (r: CppMutRef<T>)
        ensures
            r.addr() == old(self).addr(),
            *final(self) == *old(self),
    {
        CppMutRef::from_ptr(self.ptr.as_mut_ptr())
    }

    /// Create a C++ reference from a raw address.
    pub fn from_ptr(ptr: usize) -> (r: Self)
        ensures
            r.addr() == ptr,
    {
        CppMutLtRef { ptr: CppMutRef::from_ptr(ptr), phantom: PhantomData }
    }
}

/// Any type which can return a C++ reference to its contents.
pub trait AsCppRef<T: ?Sized> {
    /// The address of the contents.
    spec fn contents_addr(&self) -> usize;

    /// Returns a reference which obeys C++ reference semantics.
    fn as_cpp_ref(&self) -> (r: CppRef<T>)
        ensures
            r.addr() == self.contents_addr(),
    ;
}

/// Any type which can return a mutable C++ reference to its contents.
pub trait AsCppMutRef<T: ?Sized>: AsCppRef<T> {
    /// Returns a mutable reference which obeys C++ reference semantics.
    fn as_cpp_mut_ref(&mut self) -> (r: CppMutRef<T>)
        ensures
            r.addr() == old(self).contents_addr(),
            final(self).contents_addr() == old(self).contents_addr(),
    ;
}

impl<T: ?Sized> AsCppRef<T> for CppMutRef<T> {
    open spec fn contents_addr(&self) -> usize {
        self.addr()
    }

    fn as_cpp_ref(&self) -> (r: CppRef<T>) {
        CppRef::from_ptr(self.addr)
    }
}

impl<T> From<CppMutRef<T>> for CppRef<T> {
    fn from(mutable: CppMutRef<T>) -> (r: CppRef<T>) {
        CppRef::from_ptr(mutable.addr)
    }
}

/// Converting a mutable reference into a const one keeps the address.
pub proof fn lemma_from_mut_keeps_address<T>(m: CppMutRef<T>)
    ensures
        <CppRef<T> as vstd::std_specs::convert::FromSpec<CppMutRef<T>>>::from_spec(m).addr() == m.addr(),
{
}

impl<T> vstd::std_specs::convert::FromSpecImpl<CppMutRef<T>> for CppRef<T> {
    open spec fn obeys_from_spec() -> bool {
        true
    }

    closed spec fn from_spec(v: CppMutRef<T>) -> CppRef<T> {
        CppRef { addr: v.addr, marker: PhantomData }
    }
}

/// The box that a [`CppPin`] keeps its object in.
struct CppPinContents<T>(T);

impl<T> CppPinContents<T> {
    /// Relies on `std::ptr::from_mut` and the pointer's `addr`: the address
    /// at which the boxed object lies, which is not zero, since it comes from
    /// a reference.
    #[verifier::external_body]
    fn addr_of_mut(&mut self) -> (r: usize)
        ensures
            *final(self) == *old(self),
            r != 0,
    {
        std::ptr::from_mut(&mut self.0).addr()
    }
}

/// Holds an object so that it obeys C++ reference semantics: it only hands
/// out C++ references (which may alias) to its contents, all of them to the
/// address that it recorded when the object was boxed.
pub struct CppPin<T> {
    contents: Box<CppPinContents<T>>,
    ptr: CppMutRef<T>,
}

impl<T> CppPin<T> {
    /// The recorded address is not zero.
    #[verifier::type_invariant]
    spec fn inv(self) -> bool {
        self.ptr.addr() != 0
    }

    /// The address of the held object.
    pub closed spec fn addr(&self) -> usize {
        self.ptr.addr()
    }

    /// The held object.
    pub closed spec fn value(&self) -> T {
        self.contents.0
    }

    /// Imprison `item`: from now on only C++ references to it are handed out.
    pub fn new(item: T) -> (r: Self)
        ensures
            r.value() == item,
            r.addr() != 0,
    {
        let mut contents = Box::new(CppPinContents(item));
        let ptr = contents.addr_of_mut();
        CppPin { contents, ptr: CppMutRef::from_ptr(ptr) }
    }

    /// Get an immutable pointer to the underlying object, as an address.
    pub fn as_ptr(&self) -> (r: usize)
        ensures
            r == self.addr(),
            r != 0,
    {
        proof {
            use_type_invariant(self);
        }
        self.ptr.as_mut_ptr()
    }

    /// Get a mutable pointer to the underlying object, as an address.
    pub fn as_mut_ptr(&mut self) -> (r: usize)
        ensures
            r == old(self).addr(),
            r != 0,
            *final(self) == *old(self),
    {
        proof {
            use_type_invariant(&*self);
        }
        self.ptr.as_mut_ptr()
    }
}

impl<T> AsCppRef<T> for CppPin<T> {
    open spec fn contents_addr(&self) -> usize {
        self.addr()
    }

    fn as_cpp_ref(&self) -> (r: CppRef<T>) {
        CppRef::from_ptr(self.as_ptr())
    }
}

impl<T> AsCppMutRef<T> for CppPin<T> {
    fn as_cpp_mut_ref(&mut self) -> (r: CppMutRef<T>) {
        CppMutRef::from_ptr(self.as_mut_ptr())
    }
}

impl<T> core::ops::Deref for CppPin<T> {
    type Target = CppMutRef<T>;

    fn deref(&self) -> (r: &CppMutRef<T>)
        ensures
            r.addr() == self.addr(),
    {
        &self.ptr
    }
}

} // verus!
