use vstd::prelude::*;
use crate::error::{ErrorKind, status_of};
use crate::store::{ItemStore, ItemView, view_result, views};

verus! {

/// What a request handler answers: a payload and its status, or a failure.
pub enum Response {
    /// 200, with every item.
    Listed(Vec<ItemView>),
    /// 201, with the item as stored.
    Created(ItemView),
    /// 200, with the item as stored.
    Updated(ItemView),
    /// 200, with no body.
    Deleted,
    /// The status that the failure's kind maps to.
    Failed(ErrorKind),
}

pub open spec fn response_status(r: Response) -> int {
    match r {
        Response::Listed(_) => 200,
        Response::Created(_) => 201,
        Response::Updated(_) => 200,
        Response::Deleted => 200,
        Response::Failed(k) => status_of(k),
    }
}

impl Response {
    /// The HTTP status code of the response.
    pub fn status(&self) -> (r: u16)
        ensures
            r as int == response_status(*self),
    {
        match self {
            Response::Listed(_) => 200,
            Response::Created(_) => 201,
            Response::Updated(_) => 200,
            Response::Deleted => 200,
            Response::Failed(k) => k.status_code(),
        }
    }
}

/// Answers a listing: the items with 200, or the failure.
pub fn respond_list(r: Result<Vec<ItemView>, ErrorKind>) -> (out: Response)
    ensures
        r matches Ok(v) ==> out == Response::Listed(v),
        r matches Err(k) ==> out == Response::Failed(k),
{
    match r {
        Ok(v) => Response::Listed(v),
        Err(k) => Response::Failed(k),
    }
}

/// Answers a creation: the stored item with 201, or the failure.
pub fn respond_create(r: Result<ItemView, ErrorKind>) -> (out: Response)
    ensures
        r matches Ok(v) ==> out == Response::Created(v),
        r matches Err(k) ==> out == Response::Failed(k),
{
    match r {
        Ok(v) => Response::Created(v),
        Err(k) => Response::Failed(k),
    }
}

/// Answers an update: the stored item with 200, or the failure.
pub fn respond_update(r: Result<ItemView, ErrorKind>) -> (out: Response)
    ensures
        r matches Ok(v) ==> out == Response::Updated(v),
        r matches Err(k) ==> out == Response::Failed(k),
{
    match r {
        Ok(v) => Response::Updated(v),
        Err(k) => Response::Failed(k),
    }
}

/// Answers a deletion: 200 with no body, or the failure.
pub fn respond_delete(r: Result<(), ErrorKind>) -> (out: Response)
    ensures
        r is Ok ==> out == Response::Deleted,
        r matches Err(k) ==> out == Response::Failed(k),
{
    match r {
        Ok(()) => Response::Deleted,
        Err(k) => Response::Failed(k),
    }
}

/// `GET /items` answered from the in-memory reference store: every item with
/// its priority label, in identifier order.
pub fn get_items(store: &ItemStore) -> (out: Response)
    requires
        store.wf(),
    ensures
        out matches Response::Listed(v) && views(v@) == store@.list(),
{
    respond_list(Ok(store.list()))
}

/// `POST /items` answered from the in-memory reference store: creates an item
/// and answers with it as stored.
pub fn create_item(store: &mut ItemStore, name: String, description: String, priority_id: i32) -> (out:
    Response)
    requires
        old(store).wf(),
    ensures
        final(store).wf(),
        final(store)@ == old(store)@.create(name@, description@, priority_id as int).0,
        match old(store)@.create(name@, description@, priority_id as int).1 {
            Ok(m) => out matches Response::Created(v) && v@ == m,
            Err(k) => out == Response::Failed(k),
        },
{
    let r = store.create(name, description, priority_id);
    proof {
        if r is Ok {
            assert(view_result(r) == Ok::<_, ErrorKind>(r->Ok_0@));
        }
    }
    respond_create(r)
}

/// `PUT /items/{id}` answered from the in-memory reference store: replaces the
/// item's fields and answers with it as stored.
pub fn update_item(
    store: &mut ItemStore,
    id: i64,
    name: String,
    description: String,
    priority_id: i32,
) -> (out: Response)
    requires
        old(store).wf(),
    ensures
        final(store).wf(),
        final(store)@ == old(store)@.update(id as int, name@, description@, priority_id as int).0,
        match old(store)@.update(id as int, name@, description@, priority_id as int).1 {
            Ok(m) => out matches Response::Updated(v) && v@ == m,
            Err(k) => out == Response::Failed(k),
        },
{
    let r = store.update(id, name, description, priority_id);
    respond_update(r)
}

/// `DELETE /items/{id}` answered from the in-memory reference store: removes
/// the item.
pub fn delete_item(store: &mut ItemStore, id: i64) -> (out: Response)
    requires
        old(store).wf(),
    ensures
        final(store).wf(),
        final(store)@ == old(store)@.delete(id as int).0,
        match old(store)@.delete(id as int).1 {
            Ok(_) => out == Response::Deleted,
            Err(k) => out == Response::Failed(k),
        },
{
    let r = store.delete(id);
    respond_delete(r)
}

} // verus!
