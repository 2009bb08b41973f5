// One tab at a time renews the session.
const myboxAuthRefreshLockKey = "mybox:auth-refresh-lock";
const myboxAuthRefreshOwner = globalThis.crypto?.randomUUID?.()
  || `${Date.now()}-${Math.random()}`;
const myboxAuthRefreshLeaseMs = 20_000;
const myboxAuthRefreshWaitMs = myboxAuthRefreshLeaseMs + 2_000;
let myboxAuthRefreshLock = null;
let myboxAuthRefreshRequest = null;

function myboxAcquireAuthRefreshStorageLock() {
  return new Promise((resolve) => {
    let storage;
    try {
      storage = globalThis.localStorage;
      if (!storage) {
        resolve("unavailable");
        return;
      }
    } catch (_) {
      resolve("unavailable");
      return;
    }
    const deadline = Date.now() + myboxAuthRefreshWaitMs;
    const attempt = () => {
      const now = Date.now();
      if (now > deadline) {
        // A live holder should finish within the request timeout. If it was
        // suspended, its expiring lease is now eligible for takeover. Keep
        // the result bounded instead of waiting on an unbounded Web Lock.
        resolve("busy");
        return;
      }
      try {
        const current = JSON.parse(storage.getItem(myboxAuthRefreshLockKey) || "null");
        if (current?.owner !== myboxAuthRefreshOwner && Number(current?.expiresAt) > now) {
          setTimeout(attempt, 100);
          return;
        }
        const lease = {
          owner: myboxAuthRefreshOwner,
          expiresAt: now + myboxAuthRefreshLeaseMs,
        };
        storage.setItem(myboxAuthRefreshLockKey, JSON.stringify(lease));
        const verified = JSON.parse(storage.getItem(myboxAuthRefreshLockKey) || "null");
        if (verified?.owner !== lease.owner) {
          setTimeout(attempt, 100);
          return;
        }
        myboxAuthRefreshLock = { owner: lease.owner, storage: true };
        resolve("acquired");
      } catch (_) {
        resolve("unavailable");
      }
    };
    attempt();
  });
}

function myboxAcquireAuthRefreshWebLock() {
  const locks = globalThis.navigator?.locks;
  if (!locks || typeof locks.request !== "function") return Promise.resolve(false);
  return new Promise((resolve) => {
    const deadline = Date.now() + myboxAuthRefreshWaitMs;
    const attempt = () => {
      if (Date.now() > deadline) {
        resolve(false);
        return;
      }
      locks.request("mybox-auth-refresh", { mode: "exclusive", ifAvailable: true }, (lock) => {
        if (!lock) {
          setTimeout(attempt, 100);
          return undefined;
        }
        let release;
        const hold = new Promise((releaseLock) => { release = releaseLock; });
        myboxAuthRefreshLock = { release, storage: false };
        resolve(true);
        return hold;
      }).catch(() => resolve(false));
    };
    attempt();
  });
}

function myboxAcquireAuthRefreshLock() {
  if (myboxAuthRefreshLock) return Promise.resolve(true);
  if (myboxAuthRefreshRequest) return myboxAuthRefreshRequest;
  const promise = myboxAcquireAuthRefreshStorageLock().then((result) => {
    if (result === "acquired") return true;
    if (result === "busy") return false;
    // Storage can be denied in private/restricted profiles. Native Web Locks
    // remain useful there, but ifAvailable plus a deadline prevents a frozen
    // tab from blocking authentication forever.
    if (globalThis.navigator?.locks?.request) {
      return myboxAcquireAuthRefreshWebLock();
    }
    // There is no cross-tab primitive left. Preserve the old best-effort
    // behavior for this exceptional profile while keeping the normal path
    // serialized by the expiring storage lease.
    myboxAuthRefreshLock = { storage: false, bestEffort: true };
    return true;
  });
  myboxAuthRefreshRequest = promise;
  promise.finally(() => {
    if (myboxAuthRefreshRequest === promise) myboxAuthRefreshRequest = null;
  });
  return promise;
}

function myboxReleaseAuthRefreshLock() {
  const lock = myboxAuthRefreshLock;
  myboxAuthRefreshLock = null;
  if (lock?.storage) {
    try {
      const storage = globalThis.localStorage;
      const current = JSON.parse(storage?.getItem(myboxAuthRefreshLockKey) || "null");
      if (current?.owner === lock.owner) storage?.removeItem(myboxAuthRefreshLockKey);
    } catch (_) {}
  }
  if (typeof lock?.release === "function") lock.release();
}

Object.assign(globalThis, {
  myboxAcquireAuthRefreshLock,
  myboxReleaseAuthRefreshLock,
});
